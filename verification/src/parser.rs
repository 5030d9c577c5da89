//! The executable recursive-descent parser.
//!
//! Every function here is proved to return exactly the outcome of the
//! corresponding rule in [`crate::grammar`]: the same consumed length, the
//! same syntax tree, and, on failure, the same diagnostic message.
//!
//! The parse position is an immutable [`State`] value threaded through every
//! function; trial parsing restores a position simply by reusing the old
//! value.

use vstd::prelude::*;

use crate::ast::{Arg, Expr, Function, Program, Type, view_expr, view_expr_seq, view_program};
use crate::constants::Op;
use crate::grammar::{
    comment_delta, consume_step, dec_digits_delta, dec_run_step, expected_msg, hex_digits_delta, hex_run_step, is_letter_char,
    is_space, letters_delta, line_delta, match_at, name_step, rem, skip_delta, spaces_delta,
    spec_parse_additive, spec_parse_assign_statement, spec_parse_compound_statement,
    spec_parse_declaration_statement, spec_parse_expr, spec_parse_factor, spec_parse_function,
    spec_parse_if_body, spec_parse_int, spec_parse_paramlist, spec_parse_program,
    spec_parse_relational, spec_parse_return_statement, spec_parse_selection_statement,
    spec_parse_statement, spec_parse_stmts, spec_parse_term, spec_parse_top_level,
    spec_parse_type, spec_parse_else_opt, text_step,
};
use crate::numerals::{dec_val, hex_val, is_dec_digit, is_hex_digit};

verus! {

/// An immutable position in a source text: the whole text and a character
/// index into it.
#[derive(Clone, Copy, Debug)]
pub struct State<'a> {
    pub code: &'a str,
    pub index: usize,
}

impl<'a> State<'a> {
    /// The cursor invariant: the index never passes the end of the text.
    pub open spec fn wf(&self) -> bool {
        self.index <= self.code@.len()
    }

    /// The text from the current position to the end.
    pub fn rest(&self) -> (r: Option<&'a str>)
        ensures
            self.wf() ==> (r matches Some(t) && t@ == self.code@.subrange(
                self.index as int,
                self.code@.len() as int,
            )),
            !self.wf() ==> r is None,
    {
        let n = self.code.unicode_len();
        if self.index <= n {
            Some(self.code.substring_char(self.index, n))
        } else {
            None
        }
    }
}

/// A parse outcome: a new position with a value, or an error message.
pub type Answer<'a, A> = Result<(State<'a>, A), String>;

/// The position `post` is `d` characters past `pre` in the same text, and
/// still within it.
pub open spec fn stepped<'a>(pre: State<'a>, post: State<'a>, d: nat) -> bool {
    &&& post.code == pre.code
    &&& post.index == pre.index + d
    &&& post.wf()
}

/// The first character at the current position, if any.
pub fn head<'a>(state: State<'a>) -> (r: Option<char>)
    ensures
        state.index < state.code@.len() ==> r == Some(state.code@[state.index as int]),
        state.index >= state.code@.len() ==> r is None,
{
    let n = state.code.unicode_len();
    if state.index < n {
        Some(state.code.get_char(state.index))
    } else {
        None
    }
}

/// The position one character further on, or the same position at the end
/// of the text.
pub fn tail<'a>(state: State<'a>) -> (r: State<'a>)
    ensures
        r.code == state.code,
        state.index < state.code@.len() ==> r.index == state.index + 1,
        state.index >= state.code@.len() ==> r.index == state.index,
{
    let n = state.code.unicode_len();
    if state.index < n {
        State { code: state.code, index: state.index + 1 }
    } else {
        State { code: state.code, index: state.index }
    }
}

/// The text remaining at the current position.
pub fn print_state<'a>(state: State<'a>) -> (r: &'a str)
    requires
        state.wf(),
    ensures
        r@ == state.code@.subrange(state.index as int, state.code@.len() as int),
{
    let n = state.code.unicode_len();
    state.code.substring_char(state.index, n)
}

/// Is `chr` an identifier character: an ASCII letter, digit or underscore?
pub fn is_letter(chr: char) -> (b: bool)
    ensures
        b == is_letter_char(chr),
{
    let u = chr as u32;
    (48 <= u && u <= 57) || (65 <= u && u <= 90) || (97 <= u && u <= 122) || u == 95
}

/// Is `chr` a decimal digit?
pub fn is_number(chr: char) -> (b: bool)
    ensures
        b == is_dec_digit(chr),
{
    let u = chr as u32;
    48 <= u && u <= 57
}

/// Is `chr` whitespace?
fn is_space_char(chr: char) -> (b: bool)
    ensures
        b == is_space(chr),
{
    chr == ' ' || chr == '\t' || chr == '\n' || chr == '\r'
}

/// Build the diagnostic for a missing construct: its name, `size` characters
/// of context, and the rest of the input.
pub fn expected<'a, A>(state: State<'a>, name: &str, size: usize) -> (r: Answer<'a, A>)
    requires
        state.wf(),
    ensures
        r matches Err(m) && m@ == expected_msg(
            state.code@,
            state.index as nat,
            name@,
            size as nat,
        ),
{
    let mut msg = String::from_str("Expected `");
    msg.append(name);
    msg.append("`: ");
    let n = state.code.unicode_len();
    if size <= n - state.index {
        let end = state.index + size;
        msg.append(state.code.substring_char(state.index, end));
        msg.append(state.code.substring_char(end, n));
    }
    Err(msg)
}

/// Strip one line comment, if one starts exactly here.
pub fn skip_comment<'a>(state: State<'a>) -> (r: Answer<'a, bool>)
    requires
        state.wf(),
    ensures
        r matches Ok((st2, ch)) && {
            let d = comment_delta(state.code@, state.index as nat);
            stepped(state, st2, d) && ch == (d > 0)
        },
{
    let ghost s = state.code@;
    let ghost i0 = state.index as nat;
    let n = state.code.unicode_len();
    if state.index < n && state.index + 1 < n && state.code.get_char(state.index) == '/'
        && state.code.get_char(state.index + 1) == '/' {
        let mut j = state.index + 2;
        proof {
            assert(comment_delta(s, i0) == 2 + line_delta(s, i0 + 2));
        }
        while j < n && state.code.get_char(j) != '\n'
            invariant
                state.index + 2 <= j <= n,
                n == s.len(),
                state.code@ == s,
                line_delta(s, i0 + 2) == (j - state.index - 2) + line_delta(s, j as nat),
            decreases n - j,
        {
            proof {
                assert(line_delta(s, j as nat) == 1 + line_delta(s, j as nat + 1));
            }
            j = j + 1;
        }
        proof {
            assert(line_delta(s, j as nat) == 0);
        }
        Ok((State { code: state.code, index: j }, true))
    } else {
        proof {
            assert(comment_delta(s, i0) == 0);
        }
        Ok((state, false))
    }
}

/// Strip the maximal run of whitespace characters.
pub fn skip_spaces<'a>(state: State<'a>) -> (r: Answer<'a, bool>)
    requires
        state.wf(),
    ensures
        r matches Ok((st2, ch)) && {
            let d = spaces_delta(state.code@, state.index as nat);
            stepped(state, st2, d) && ch == (d > 0)
        },
{
    let ghost s = state.code@;
    let n = state.code.unicode_len();
    let mut j = state.index;
    while j < n && is_space_char(state.code.get_char(j))
        invariant
            state.index <= j <= n,
            n == s.len(),
            state.code@ == s,
            spaces_delta(s, state.index as nat) == (j - state.index) + spaces_delta(s, j as nat),
        decreases n - j,
    {
        proof {
            assert(spaces_delta(s, j as nat) == 1 + spaces_delta(s, j as nat + 1));
        }
        j = j + 1;
    }
    proof {
        assert(spaces_delta(s, j as nat) == 0);
    }
    Ok((State { code: state.code, index: j }, j > state.index))
}

/// Strip comments and whitespace until neither applies.
pub fn skip<'a>(state: State<'a>) -> (r: Answer<'a, bool>)
    requires
        state.wf(),
    ensures
        r matches Ok((st2, ch)) && {
            let d = skip_delta(state.code@, state.index as nat);
            stepped(state, st2, d) && ch == (d > 0)
        },
{
    let ghost s = state.code@;
    let ghost i0 = state.index as nat;
    let mut st = state;
    loop
        invariant
            s == state.code@,
            i0 == state.index as nat,
            state.wf(),
            st.wf(),
            st.code == state.code,
            st.index >= state.index,
            skip_delta(s, i0) == (st.index - state.index) + skip_delta(s, st.index as nat),
        decreases s.len() - st.index,
    {
        let (st1, comment) = skip_comment(st)?;
        let (st2, spaces) = skip_spaces(st1)?;
        if !comment && !spaces {
            proof {
                assert(skip_delta(s, st.index as nat) == 0);
            }
            return Ok((st, st.index > state.index));
        }
        proof {
            let d1 = comment_delta(s, st.index as nat);
            let d2 = spaces_delta(s, st.index as nat + d1);
            assert(d1 + d2 > 0);
            assert(skip_delta(s, st.index as nat) == d1 + d2 + skip_delta(
                s,
                st.index as nat + d1 + d2,
            ));
        }
        st = st2;
    }
}

/// Does `pat` occur in `code` at character position `i`?
fn match_here(code: &str, i: usize, pat: &str) -> (b: bool)
    requires
        i <= code@.len(),
    ensures
        b == match_at(code@, i as nat, pat@),
{
    let ghost s = code@;
    let n = code.unicode_len();
    let pl = pat.unicode_len();
    if pl > n - i {
        return false;
    }
    let mut k: usize = 0;
    while k < pl
        invariant
            s == code@,
            n == s.len(),
            pl == pat@.len(),
            i + pl <= n,
            0 <= k <= pl,
            forall|j: int| 0 <= j < k ==> s[i + j] == pat@[j],
        decreases pl - k,
    {
        if code.get_char(i + k) != pat.get_char(k) {
            proof {
                assert(!match_at(s, i as nat, pat@)) by {
                    if s.subrange(i as int, i + pat@.len() as int) == pat@ {
                        assert(s.subrange(i as int, i + pat@.len() as int)[k as int] == s[i + k]);
                    }
                }
            }
            return false;
        }
        k = k + 1;
    }
    proof {
        assert(s.subrange(i as int, i + pat@.len() as int) =~= pat@);
    }
    true
}

/// Skip trivia, then match the literal `pat`: the new position past the
/// literal if it was found, the position after the trivia if not.
pub fn text<'a>(state: State<'a>, pat: &str) -> (r: Answer<'a, bool>)
    requires
        state.wf(),
    ensures
        r matches Ok((st2, m)) && ({
            let (d, sm) = text_step(state.code@, state.index as nat, pat@);
            &&& m == sm
            &&& stepped(state, st2, d)
            &&& (m ==> st2.index >= state.index + pat@.len())
        }),
{
    let (st1, _) = skip(state)?;
    if match_here(st1.code, st1.index, pat) {
        let pl = pat.unicode_len();
        let n = st1.code.unicode_len();
        proof {
            assert(st1.index + pl <= n);
        }
        Ok((State { code: st1.code, index: st1.index + pl }, true))
    } else {
        Ok((st1, false))
    }
}

/// As [`text`], but a miss becomes a parse error naming the literal.
pub fn consume<'a>(state: State<'a>, pat: &'a str) -> (r: Answer<'a, &'a str>)
    requires
        state.wf(),
    ensures
        match consume_step(state.code@, state.index as nat, pat@) {
            Ok(d) => r matches Ok((st2, p)) && stepped(state, st2, d) && p@ == pat@ && st2.index
                >= state.index + pat@.len(),
            Err(m) => r matches Err(ms) && ms@ == m,
        },
{
    let (st1, matched) = text(state, pat)?;
    if matched {
        Ok((st1, pat))
    } else {
        expected(st1, pat, pat.unicode_len())
    }
}

/// Try the literal `pat`; on a match produce `val`, otherwise decline.
fn enum_consumer<'a, A>(state: State<'a>, pat: &str, val: A) -> (r: Answer<'a, Option<A>>)
    requires
        state.wf(),
    ensures
        r matches Ok((st2, o)) && ({
            let (d, m) = text_step(state.code@, state.index as nat, pat@);
            &&& stepped(state, st2, d)
            &&& o == if m {
                Some(val)
            } else {
                None::<A>
            }
            &&& (m ==> st2.index >= state.index + pat@.len())
        }),
{
    let (st1, matched) = text(state, pat)?;
    if matched {
        Ok((st1, Some(val)))
    } else {
        Ok((st1, None))
    }
}

/// Skip trivia, then take the maximal (possibly empty) run of identifier
/// characters.
pub fn name<'a>(state: State<'a>) -> (r: Answer<'a, String>)
    requires
        state.wf(),
    ensures
        r matches Ok((st2, nm)) && ({
            let (d, snm) = name_step(state.code@, state.index as nat);
            &&& stepped(state, st2, d)
            &&& nm@ == snm
        }),
{
    let ghost s = state.code@;
    let (st1, _) = skip(state)?;
    let n = st1.code.unicode_len();
    let mut j = st1.index;
    while j < n && is_letter(st1.code.get_char(j))
        invariant
            s == st1.code@,
            n == s.len(),
            st1.index <= j <= n,
            letters_delta(s, st1.index as nat) == (j - st1.index) + letters_delta(s, j as nat),
        decreases n - j,
    {
        proof {
            assert(letters_delta(s, j as nat) == 1 + letters_delta(s, j as nat + 1));
        }
        j = j + 1;
    }
    proof {
        assert(letters_delta(s, j as nat) == 0);
    }
    let nm = st1.code.substring_char(st1.index, j).to_owned();
    Ok((State { code: st1.code, index: j }, nm))
}

/// Skip trivia, then take the maximal (possibly empty) run of decimal
/// digits.
pub fn int_here<'a>(state: State<'a>) -> (r: Answer<'a, String>)
    requires
        state.wf(),
    ensures
        r matches Ok((st2, run)) && ({
            let (d, srun) = dec_run_step(state.code@, state.index as nat);
            &&& stepped(state, st2, d)
            &&& run@ == srun
            &&& crate::numerals::all_dec_digits(run@)
        }),
{
    let ghost s = state.code@;
    let (st1, _) = skip(state)?;
    let n = st1.code.unicode_len();
    let mut j = st1.index;
    while j < n && is_number(st1.code.get_char(j))
        invariant
            s == st1.code@,
            n == s.len(),
            st1.index <= j <= n,
            dec_digits_delta(s, st1.index as nat) == (j - st1.index) + dec_digits_delta(
                s,
                j as nat,
            ),
            forall|q: int| st1.index <= q < j ==> is_dec_digit(#[trigger] s[q]),
        decreases n - j,
    {
        proof {
            assert(dec_digits_delta(s, j as nat) == 1 + dec_digits_delta(s, j as nat + 1));
        }
        j = j + 1;
    }
    proof {
        assert(dec_digits_delta(s, j as nat) == 0);
    }
    let run = st1.code.substring_char(st1.index, j).to_owned();
    Ok((State { code: st1.code, index: j }, run))
}

/// Skip trivia, then take the maximal (possibly empty) run of hexadecimal
/// digits.
fn hex_here<'a>(state: State<'a>) -> (r: Answer<'a, String>)
    requires
        state.wf(),
    ensures
        r matches Ok((st2, run)) && ({
            let (d, srun) = hex_run_step(state.code@, state.index as nat);
            &&& stepped(state, st2, d)
            &&& run@ == srun
            &&& crate::numerals::all_hex_digits(run@)
        }),
{
    let ghost s = state.code@;
    let (st1, _) = skip(state)?;
    let n = st1.code.unicode_len();
    let mut j = st1.index;
    while j < n && is_hex_digit_exec(st1.code.get_char(j))
        invariant
            s == st1.code@,
            n == s.len(),
            st1.index <= j <= n,
            hex_digits_delta(s, st1.index as nat) == (j - st1.index) + hex_digits_delta(
                s,
                j as nat,
            ),
            forall|q: int| st1.index <= q < j ==> is_hex_digit(#[trigger] s[q]),
        decreases n - j,
    {
        proof {
            assert(hex_digits_delta(s, j as nat) == 1 + hex_digits_delta(s, j as nat + 1));
        }
        j = j + 1;
    }
    proof {
        assert(hex_digits_delta(s, j as nat) == 0);
    }
    let run = st1.code.substring_char(st1.index, j).to_owned();
    Ok((State { code: st1.code, index: j }, run))
}

/// Is `chr` a hexadecimal digit?
fn is_hex_digit_exec(chr: char) -> (b: bool)
    ensures
        b == is_hex_digit(chr),
{
    let u = chr as u32;
    (48 <= u && u <= 57) || (65 <= u && u <= 70) || (97 <= u && u <= 102)
}

/// An integer literal: decimal, or hexadecimal after a `0x` prefix.  An
/// empty digit run, or a value over 32 bits, is a parse error.
#[verifier::rlimit(100)]
pub fn parse_int<'a>(state: State<'a>) -> (r: Answer<'a, Expr>)
    requires
        state.wf(),
    ensures
        match spec_parse_int(state.code@, state.index as nat) {
            Ok((d, ev)) => r matches Ok((st2, e)) && stepped(state, st2, d) && view_expr(e) == ev
                && st2.index > state.index,
            Err(m) => r matches Err(ms) && ms@ == m,
        },
{
    proof {
        reveal_strlit("0x");
        assert("0x"@ =~= seq!['0', 'x']);
    }
    let (st1, is_hex) = text(state, "0x")?;
    if is_hex {
        let (st2, src) = hex_here(st1)?;
        match crate::numerals::u32_from_hex(src.as_str()) {
            Some(value) => Ok((st2, Expr::Int { value })),
            None => expected(st2, "hexadecimal number", src.as_str().unicode_len()),
        }
    } else {
        let (st2, src) = int_here(st1)?;
        match crate::numerals::u32_from_dec(src.as_str()) {
            Some(value) => Ok((st2, Expr::Int { value })),
            None => expected(st2, "base10 number", src.as_str().unicode_len()),
        }
    }
}

/// A type name: `int` or `void`.
#[verifier::rlimit(100)]
fn parse_type<'a>(state: State<'a>) -> (r: Answer<'a, Type>)
    requires
        state.wf(),
    ensures
        match spec_parse_type(state.code@, state.index as nat) {
            Ok((d, ty)) => r matches Ok((st2, t)) && stepped(state, st2, d) && t == ty && st2.index
                > state.index,
            Err(m) => r matches Err(ms) && ms@ == m,
        },
{
    proof {
        reveal_strlit("int");
        reveal_strlit("void");
        assert("int"@ =~= seq!['i', 'n', 't']);
        assert("void"@ =~= seq!['v', 'o', 'i', 'd']);
    }
    let (st1, o1) = enum_consumer(state, "int", Type::Int)?;
    if let Some(ty) = o1 {
        return Ok((st1, ty));
    }
    let (st2, o2) = enum_consumer(state, "void", Type::Void)?;
    if let Some(ty) = o2 {
        return Ok((st2, ty));
    }
    expected(state, "type", 1)
}

/// A factor: a parenthesized expression, or an integer literal.
#[verifier::rlimit(100)]
fn parse_factor<'a>(state: State<'a>) -> (r: Answer<'a, Expr>)
    requires
        state.wf(),
    ensures
        match spec_parse_factor(state.code@, state.index as nat) {
            Ok((d, ev)) => r matches Ok((st2, e)) && stepped(state, st2, d) && view_expr(e) == ev
                && st2.index > state.index,
            Err(m) => r matches Err(ms) && ms@ == m,
        },
    decreases rem(state.code@, state.index as nat), 0int,
{
    proof {
        reveal_strlit("(");
        reveal_strlit(")");
        assert("("@ =~= seq!['(']);
        assert(")"@ =~= seq![')']);
    }
    let (st1, is_paren) = text(state, "(")?;
    if is_paren {
        let (st2, expr) = parse_expr(st1)?;
        let (st3, _) = consume(st2, ")")?;
        Ok((st3, expr))
    } else {
        parse_int(st1)
    }
}

/// A term: a factor, optionally followed by `/` or `*` and a full term.
#[verifier::rlimit(100)]
fn parse_term<'a>(state: State<'a>) -> (r: Answer<'a, Expr>)
    requires
        state.wf(),
    ensures
        match spec_parse_term(state.code@, state.index as nat) {
            Ok((d, ev)) => r matches Ok((st2, e)) && stepped(state, st2, d) && view_expr(e) == ev
                && st2.index > state.index,
            Err(m) => r matches Err(ms) && ms@ == m,
        },
    decreases rem(state.code@, state.index as nat), 1int,
{
    proof {
        reveal_strlit("/");
        reveal_strlit("*");
        assert("/"@ =~= seq!['/']);
        assert("*"@ =~= seq!['*']);
    }
    let (st1, lhs) = parse_factor(state)?;
    let (sta, oa) = enum_consumer(st1, "/", Op::Div)?;
    if let Some(op) = oa {
        let (st3, rhs) = parse_term(sta)?;
        return Ok((st3, Expr::BinOp { op, lhs: Box::new(lhs), rhs: Box::new(rhs) }));
    }
    let (stb, ob) = enum_consumer(st1, "*", Op::Mul)?;
    if let Some(op) = ob {
        let (st3, rhs) = parse_term(stb)?;
        return Ok((st3, Expr::BinOp { op, lhs: Box::new(lhs), rhs: Box::new(rhs) }));
    }
    Ok((st1, lhs))
}

/// An additive expression: a term, optionally followed by `-` or `+` and a
/// full expression.
#[verifier::rlimit(100)]
fn parse_additive_expr<'a>(state: State<'a>) -> (r: Answer<'a, Expr>)
    requires
        state.wf(),
    ensures
        match spec_parse_additive(state.code@, state.index as nat) {
            Ok((d, ev)) => r matches Ok((st2, e)) && stepped(state, st2, d) && view_expr(e) == ev
                && st2.index > state.index,
            Err(m) => r matches Err(ms) && ms@ == m,
        },
    decreases rem(state.code@, state.index as nat), 2int,
{
    proof {
        reveal_strlit("-");
        reveal_strlit("+");
        assert("-"@ =~= seq!['-']);
        assert("+"@ =~= seq!['+']);
    }
    let (st1, lhs) = parse_term(state)?;
    let (sta, oa) = enum_consumer(st1, "-", Op::Sub)?;
    if let Some(op) = oa {
        let (st3, rhs) = parse_expr(sta)?;
        return Ok((st3, Expr::BinOp { op, lhs: Box::new(lhs), rhs: Box::new(rhs) }));
    }
    let (stb, ob) = enum_consumer(st1, "+", Op::Add)?;
    if let Some(op) = ob {
        let (st3, rhs) = parse_expr(stb)?;
        return Ok((st3, Expr::BinOp { op, lhs: Box::new(lhs), rhs: Box::new(rhs) }));
    }
    Ok((st1, lhs))
}

/// A relational expression: an additive expression, optionally followed by
/// `<=`, `>=`, `<` or `>` and a full expression.
#[verifier::rlimit(100)]
fn parse_relational_expr<'a>(state: State<'a>) -> (r: Answer<'a, Expr>)
    requires
        state.wf(),
    ensures
        match spec_parse_relational(state.code@, state.index as nat) {
            Ok((d, ev)) => r matches Ok((st2, e)) && stepped(state, st2, d) && view_expr(e) == ev
                && st2.index > state.index,
            Err(m) => r matches Err(ms) && ms@ == m,
        },
    decreases rem(state.code@, state.index as nat), 3int,
{
    proof {
        reveal_strlit("<=");
        reveal_strlit(">=");
        reveal_strlit("<");
        reveal_strlit(">");
        assert("<="@ =~= seq!['<', '=']);
        assert(">="@ =~= seq!['>', '=']);
        assert("<"@ =~= seq!['<']);
        assert(">"@ =~= seq!['>']);
    }
    let (st1, lhs) = parse_additive_expr(state)?;
    let (sta, oa) = enum_consumer(st1, "<=", Op::Le)?;
    if let Some(op) = oa {
        let (st3, rhs) = parse_expr(sta)?;
        return Ok((st3, Expr::BinOp { op, lhs: Box::new(lhs), rhs: Box::new(rhs) }));
    }
    let (stb, ob) = enum_consumer(st1, ">=", Op::Ge)?;
    if let Some(op) = ob {
        let (st3, rhs) = parse_expr(stb)?;
        return Ok((st3, Expr::BinOp { op, lhs: Box::new(lhs), rhs: Box::new(rhs) }));
    }
    let (stc, oc) = enum_consumer(st1, "<", Op::Lt)?;
    if let Some(op) = oc {
        let (st3, rhs) = parse_expr(stc)?;
        return Ok((st3, Expr::BinOp { op, lhs: Box::new(lhs), rhs: Box::new(rhs) }));
    }
    let (std_, od) = enum_consumer(st1, ">", Op::Gt)?;
    if let Some(op) = od {
        let (st3, rhs) = parse_expr(std_)?;
        return Ok((st3, Expr::BinOp { op, lhs: Box::new(lhs), rhs: Box::new(rhs) }));
    }
    Ok((st1, lhs))
}

/// A full expression: assignment is a statement form here, so the entry
/// point is the relational level.
fn parse_expr<'a>(state: State<'a>) -> (r: Answer<'a, Expr>)
    requires
        state.wf(),
    ensures
        match spec_parse_expr(state.code@, state.index as nat) {
            Ok((d, ev)) => r matches Ok((st2, e)) && stepped(state, st2, d) && view_expr(e) == ev
                && st2.index > state.index,
            Err(m) => r matches Err(ms) && ms@ == m,
        },
    decreases rem(state.code@, state.index as nat), 4int,
{
    parse_relational_expr(state)
}

/// A return statement, or a bare expression statement.
#[verifier::rlimit(100)]
fn parse_return_statement<'a>(state: State<'a>) -> (r: Answer<'a, Expr>)
    requires
        state.wf(),
    ensures
        match spec_parse_return_statement(state.code@, state.index as nat) {
            Ok((d, ev)) => r matches Ok((st2, e)) && stepped(state, st2, d) && view_expr(e) == ev
                && st2.index > state.index,
            Err(m) => r matches Err(ms) && ms@ == m,
        },
    decreases rem(state.code@, state.index as nat), 5int,
{
    proof {
        reveal_strlit("return");
        reveal_strlit(";");
        assert("return"@ =~= seq!['r', 'e', 't', 'u', 'r', 'n']);
        assert(";"@ =~= seq![';']);
    }
    let (st1, ret) = text(state, "return")?;
    let (st2, expr) = parse_expr(st1)?;
    let (st3, _) = consume(st2, ";")?;
    if ret {
        Ok((st3, Expr::Return { expr: Box::new(expr) }))
    } else {
        Ok((st3, expr))
    }
}

/// An assignment statement: a name, `=`, an expression, `;`.
#[verifier::rlimit(100)]
fn parse_assign_statement<'a>(state: State<'a>) -> (r: Answer<'a, Expr>)
    requires
        state.wf(),
    ensures
        match spec_parse_assign_statement(state.code@, state.index as nat) {
            Ok((d, ev)) => r matches Ok((st2, e)) && stepped(state, st2, d) && view_expr(e) == ev
                && st2.index > state.index,
            Err(m) => r matches Err(ms) && ms@ == m,
        },
    decreases rem(state.code@, state.index as nat), 5int,
{
    proof {
        reveal_strlit("=");
        reveal_strlit(";");
        assert("="@ =~= seq!['=']);
        assert(";"@ =~= seq![';']);
    }
    let (st1, identifier) = name(state)?;
    let (st2, _) = consume(st1, "=")?;
    let (st3, expr) = parse_expr(st2)?;
    let (st4, _) = consume(st3, ";")?;
    Ok((st4, Expr::Assign { name: identifier, rhs: Box::new(expr) }))
}

/// A declaration statement: a type, a name, an optional initializer, `;`.
#[verifier::rlimit(100)]
fn parse_declaration_statement<'a>(state: State<'a>) -> (r: Answer<'a, Expr>)
    requires
        state.wf(),
    ensures
        match spec_parse_declaration_statement(state.code@, state.index as nat) {
            Ok((d, ev)) => r matches Ok((st2, e)) && stepped(state, st2, d) && view_expr(e) == ev
                && st2.index > state.index,
            Err(m) => r matches Err(ms) && ms@ == m,
        },
    decreases rem(state.code@, state.index as nat), 5int,
{
    proof {
        reveal_strlit("=");
        reveal_strlit(";");
        assert("="@ =~= seq!['=']);
        assert(";"@ =~= seq![';']);
    }
    let (st1, ty) = parse_type(state)?;
    let (st2, identifier) = name(st1)?;
    let (st3, has_init) = text(st2, "=")?;
    if !has_init {
        let (st4, _) = consume(st3, ";")?;
        Ok((st4, Expr::Decl { ty, name: identifier, init: None }))
    } else {
        let (st4, expr) = parse_expr(st3)?;
        let (st5, _) = consume(st4, ";")?;
        Ok((st5, Expr::Decl { ty, name: identifier, init: Some(Box::new(expr)) }))
    }
}

/// The body of a conditional branch: a compound statement, or a single
/// statement wrapped as a one-element body; both are trial parses.
#[verifier::rlimit(100)]
fn parse_if_body<'a>(state: State<'a>) -> (r: Answer<'a, Vec<Expr>>)
    requires
        state.wf(),
    ensures
        match spec_parse_if_body(state.code@, state.index as nat) {
            Ok((d, es)) => r matches Ok((st2, v)) && stepped(state, st2, d) && view_expr_seq(v@)
                == es && st2.index > state.index,
            Err(m) => r matches Err(ms) && ms@ == m,
        },
    decreases rem(state.code@, state.index as nat), 11int,
{
    match parse_compound_statement(state) {
        Ok((st2, body)) => Ok((st2, body)),
        Err(_) => match parse_statement(state) {
            Ok((st2, e)) => {
                let mut v: Vec<Expr> = Vec::new();
                v.push(e);
                proof {
                    assert(v@ =~= seq![e]);
                    crate::ast::lemma_view_expr_seq_singleton(e);
                }
                Ok((st2, v))
            },
            Err(_) => expected(state, "body of if", 1),
        },
    }
}

/// An optional `else` part: `else` and a body, or nothing at all.
fn parse_else_opt<'a>(state: State<'a>) -> (r: Answer<'a, Vec<Expr>>)
    requires
        state.wf(),
    ensures
        r matches Ok((st2, v)) && ({
            let (d, es) = spec_parse_else_opt(state.code@, state.index as nat);
            stepped(state, st2, d) && view_expr_seq(v@) == es
        }),
    decreases rem(state.code@, state.index as nat), 12int,
{
    proof {
        reveal_strlit("else");
        assert("else"@ =~= seq!['e', 'l', 's', 'e']);
    }
    let (st1, m) = text(state, "else")?;
    if m {
        match parse_if_body(st1) {
            Ok((st2, v)) => Ok((st2, v)),
            Err(_) => Ok((state, Vec::new())),
        }
    } else {
        Ok((state, Vec::new()))
    }
}

/// A conditional statement: `if`, a parenthesized condition, a then body,
/// and an optional else body.
#[verifier::rlimit(60)]
fn parse_selection_statement<'a>(state: State<'a>) -> (r: Answer<'a, Expr>)
    requires
        state.wf(),
    ensures
        match spec_parse_selection_statement(state.code@, state.index as nat) {
            Ok((d, ev)) => r matches Ok((st2, e)) && stepped(state, st2, d) && view_expr(e) == ev
                && st2.index > state.index,
            Err(m) => r matches Err(ms) && ms@ == m,
        },
    decreases rem(state.code@, state.index as nat), 5int,
{
    proof {
        reveal_strlit("if");
        reveal_strlit("(");
        reveal_strlit(")");
        assert("if"@ =~= seq!['i', 'f']);
        assert("("@ =~= seq!['(']);
        assert(")"@ =~= seq![')']);
    }
    let (st1, _) = consume(state, "if")?;
    let (st2, _) = consume(st1, "(")?;
    let (st3, cond) = parse_expr(st2)?;
    let (st4, _) = consume(st3, ")")?;
    let (st5, then) = parse_if_body(st4)?;
    let (st6, otherwise) = parse_else_opt(st5)?;
    Ok((st6, Expr::If { cond: Box::new(cond), then, otherwise }))
}

/// A statement: a return statement, an assignment, a declaration, or a
/// conditional, each attempted as a trial parse in that order.
#[verifier::rlimit(100)]
fn parse_statement<'a>(state: State<'a>) -> (r: Answer<'a, Expr>)
    requires
        state.wf(),
    ensures
        match spec_parse_statement(state.code@, state.index as nat) {
            Ok((d, ev)) => r matches Ok((st2, e)) && stepped(state, st2, d) && view_expr(e) == ev
                && st2.index > state.index,
            Err(m) => r matches Err(ms) && ms@ == m,
        },
    decreases rem(state.code@, state.index as nat), 6int,
{
    match parse_return_statement(state) {
        Ok((st, e)) => Ok((st, e)),
        Err(_) => match parse_assign_statement(state) {
            Ok((st, e)) => Ok((st, e)),
            Err(_) => match parse_declaration_statement(state) {
                Ok((st, e)) => Ok((st, e)),
                Err(_) => match parse_selection_statement(state) {
                    Ok((st, e)) => Ok((st, e)),
                    Err(_) => expected(state, "type", 1),
                },
            },
        },
    }
}

/// The statements of a compound statement, up to and including the closing
/// brace.
#[verifier::rlimit(100)]
fn parse_stmts<'a>(state: State<'a>) -> (r: Answer<'a, Vec<Expr>>)
    requires
        state.wf(),
    ensures
        match spec_parse_stmts(state.code@, state.index as nat) {
            Ok((d, es)) => r matches Ok((st2, v)) && stepped(state, st2, d) && view_expr_seq(v@)
                == es,
            Err(m) => r matches Err(ms) && ms@ == m,
        },
    decreases rem(state.code@, state.index as nat), 9int,
{
    proof {
        reveal_strlit("}");
        assert("}"@ =~= seq!['}']);
    }
    let (st1, m) = text(state, "}")?;
    if m {
        return Ok((st1, Vec::new()));
    }
    let (st2, e) = parse_statement(st1)?;
    let (st3, mut rest) = parse_stmts(st2)?;
    let ghost rest0 = rest@;
    rest.insert(0, e);
    proof {
        assert(rest@ =~= seq![e] + rest0);
        crate::ast::lemma_view_expr_seq_cons(e, rest0);
    }
    Ok((st3, rest))
}

/// A compound statement: `{`, statements, `}`.
#[verifier::rlimit(100)]
fn parse_compound_statement<'a>(state: State<'a>) -> (r: Answer<'a, Vec<Expr>>)
    requires
        state.wf(),
    ensures
        match spec_parse_compound_statement(state.code@, state.index as nat) {
            Ok((d, es)) => r matches Ok((st2, v)) && stepped(state, st2, d) && view_expr_seq(v@)
                == es && st2.index > state.index,
            Err(m) => r matches Err(ms) && ms@ == m,
        },
    decreases rem(state.code@, state.index as nat), 10int,
{
    proof {
        reveal_strlit("{");
        assert("{"@ =~= seq!['{']);
    }
    let (st1, _) = consume(state, "{")?;
    let (st2, es) = parse_stmts(st1)?;
    Ok((st2, es))
}

/// A parameter list, up to and including the closing `)`: `type name`
/// pairs, each with an optional trailing comma.
#[verifier::rlimit(100)]
fn parse_paramlist<'a>(state: State<'a>) -> (r: Answer<'a, Vec<Arg>>)
    requires
        state.wf(),
    ensures
        match spec_parse_paramlist(state.code@, state.index as nat) {
            Ok((d, argsv)) => r matches Ok((st2, v)) && stepped(state, st2, d)
                && crate::ast::view_arg_seq(v@) == argsv,
            Err(m) => r matches Err(ms) && ms@ == m,
        },
    decreases rem(state.code@, state.index as nat),
{
    proof {
        reveal_strlit(")");
        reveal_strlit(",");
        assert(")"@ =~= seq![')']);
        assert(","@ =~= seq![',']);
    }
    let (st1, m) = text(state, ")")?;
    if m {
        let v: Vec<Arg> = Vec::new();
        proof {
            assert(crate::ast::view_arg_seq(v@) =~= Seq::<crate::ast::ArgV>::empty());
        }
        return Ok((st1, v));
    }
    let (st2, ty) = parse_type(st1)?;
    let (st3, nm) = name(st2)?;
    let ghost nmv = nm@;
    let (st4, _comma) = text(st3, ",")?;
    let (st5, mut rest) = parse_paramlist(st4)?;
    let ghost rest0 = rest@;
    rest.insert(0, Arg { ty, name: nm });
    proof {
        assert(rest@ =~= seq![Arg { ty, name: rest@[0].name }] + rest0);
        assert(crate::ast::view_arg_seq(rest@) =~= seq![crate::ast::ArgV { ty, name: nmv }]
            + crate::ast::view_arg_seq(rest0));
    }
    Ok((st5, rest))
}

/// A function: a return type, a name, a parenthesized parameter list, and a
/// compound-statement body.
#[verifier::rlimit(100)]
fn parse_function<'a>(state: State<'a>) -> (r: Answer<'a, Function>)
    requires
        state.wf(),
    ensures
        match spec_parse_function(state.code@, state.index as nat) {
            Ok((d, fv)) => r matches Ok((st2, f)) && stepped(state, st2, d)
                && crate::ast::view_function(f) == fv && st2.index > state.index,
            Err(m) => r matches Err(ms) && ms@ == m,
        },
{
    proof {
        crate::grammar::lemma_spec_parse_function_cases(state.code@, state.index as nat);
        reveal_strlit("(");
        assert("("@ =~= seq!['(']);
    }
    let (st1, ret_type) = parse_type(state)?;
    let (st2, nm) = name(st1)?;
    let (st3, _) = consume(st2, "(")?;
    let (st4, args) = parse_paramlist(st3)?;
    let (st5, exprs) = parse_compound_statement(st4)?;
    Ok((st5, Function { ret_type, exprs, name: nm, args }))
}

/// The top level: functions until only trivia remains.  The final run of
/// trivia is scanned but the returned position does not include it.
#[verifier::rlimit(100)]
#[verifier::spinoff_prover]
fn parse_top_level<'a>(state: State<'a>) -> (r: Answer<'a, Vec<Function>>)
    requires
        state.wf(),
    ensures
        match spec_parse_top_level(state.code@, state.index as nat) {
            Ok((d, fs)) => r matches Ok((st2, v)) && stepped(state, st2, d)
                && crate::ast::view_function_seq(v@) == fs,
            Err(m) => r matches Err(ms) && ms@ == m,
        },
    decreases rem(state.code@, state.index as nat),
{
    let (st1, _) = skip(state)?;
    let n = st1.code.unicode_len();
    if st1.index >= n {
        let v: Vec<Function> = Vec::new();
        proof {
            assert(crate::ast::view_function_seq(v@) =~= Seq::<crate::ast::FunctionV>::empty());
        }
        return Ok((state, v));
    }
    let ghost s = state.code@;
    let ghost i0 = state.index as nat;
    let ghost d = skip_delta(s, i0);
    let (st2, f) = match parse_function(st1) {
        Ok(p) => p,
        Err(m) => {
            proof {
                assert(spec_parse_function(s, i0 + d) is Err);
                assert(spec_parse_top_level(s, i0) is Err);
                assert(spec_parse_top_level(s, i0)->Err_0 == m@);
            }
            return Err(m);
        },
    };
    let ghost fv = crate::ast::view_function(f);
    proof {
        let tmp = spec_parse_function(s, i0 + d);
        assert(tmp is Ok);
        assert(tmp->Ok_0.0 == st2.index - st1.index);
        assert(tmp->Ok_0.1 == fv);
        assert(st2.index - st1.index > 0);
        assert(i0 + d + (st2.index - st1.index) <= s.len());
    }
    let (st3, mut rest) = match parse_top_level(st2) {
        Ok(p) => p,
        Err(m) => {
            proof {
                assert(spec_parse_top_level(s, st2.index as nat) is Err);
                assert(spec_parse_top_level(s, i0) is Err);
                assert(spec_parse_top_level(s, i0)->Err_0 == m@);
            }
            return Err(m);
        },
    };
    let ghost rest0 = rest@;
    rest.insert(0, f);
    proof {
        assert(rest@ =~= seq![rest@[0]] + rest0);
        assert(crate::ast::view_function_seq(rest@) =~= seq![fv] + crate::ast::view_function_seq(
            rest0,
        ));
        assert(spec_parse_top_level(s, i0) is Ok);
        assert(spec_parse_top_level(s, i0)->Ok_0.0 == st3.index - state.index);
        assert(spec_parse_top_level(s, i0)->Ok_0.1 == crate::ast::view_function_seq(rest@));
    }
    Ok((st3, rest))
}

/// Parse a whole source text into a program.
#[verifier::rlimit(100)]
pub fn parse(code: &str) -> (r: Result<Program, String>)
    ensures
        match spec_parse_program(code@) {
            Ok(pv) => r matches Ok(p) && p@ == pv,
            Err(m) => r matches Err(ms) && ms@ == m,
        },
{
    let state = State { code, index: 0 };
    match parse_top_level(state) {
        Ok((_, functions)) => Ok(Program { functions }),
        Err(m) => Err(m),
    }
}

} // verus!
