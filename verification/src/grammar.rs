//! The grammar, defined once and for all as specification functions.
//!
//! Every function here is a total mathematical function from a sequence of
//! characters and a starting position to an outcome.  An outcome is either
//! `Ok((d, v))`, meaning the rule matched `d` characters and produced the
//! value `v`, or `Err(msg)`, a parse error carrying the exact diagnostic
//! message.  The executable parser in [`crate::parser`] is proved to return
//! precisely these outcomes, so these definitions *are* the language.
//!
//! Positions are threaded as "characters consumed" rather than absolute
//! indices: a rule that consumed `d1` characters hands position `i + d1` to
//! the next rule.  Ordered choice tries each alternative against the same
//! starting position; a declining alternative consumes nothing.

use vstd::prelude::*;

use crate::ast::{ArgV, ExprV, FunctionV, ProgramV, Type};
use crate::constants::Op;
use crate::numerals::{dec_val, hex_val, is_dec_digit, is_hex_digit};

verus! {

/// The number of characters remaining at position `i`.
pub open spec fn rem(s: Seq<char>, i: nat) -> nat {
    if i <= s.len() {
        (s.len() - i) as nat
    } else {
        0
    }
}

/// The whitespace characters the scanner strips between tokens.
pub open spec fn is_space(c: char) -> bool {
    c == ' ' || c == '\t' || c == '\n' || c == '\r'
}

/// Identifier characters: ASCII letters, digits and underscore.
pub open spec fn is_letter_char(c: char) -> bool {
    48 <= c as u32 <= 57 || 65 <= c as u32 <= 90 || 97 <= c as u32 <= 122 || c as u32 == 95
}

/// Length of the run of whitespace characters starting at `i`.
pub open spec fn spaces_delta(s: Seq<char>, i: nat) -> nat
    decreases rem(s, i),
{
    if i < s.len() && is_space(s[i as int]) {
        1 + spaces_delta(s, i + 1)
    } else {
        0
    }
}

/// Length of the run of characters before the next line break (or the end
/// of the input) starting at `i`.
pub open spec fn line_delta(s: Seq<char>, i: nat) -> nat
    decreases rem(s, i),
{
    if i < s.len() && s[i as int] != '\n' {
        1 + line_delta(s, i + 1)
    } else {
        0
    }
}

/// Length of the run of identifier characters starting at `i`.
pub open spec fn letters_delta(s: Seq<char>, i: nat) -> nat
    decreases rem(s, i),
{
    if i < s.len() && is_letter_char(s[i as int]) {
        1 + letters_delta(s, i + 1)
    } else {
        0
    }
}

/// Length of the run of decimal digits starting at `i`.
pub open spec fn dec_digits_delta(s: Seq<char>, i: nat) -> nat
    decreases rem(s, i),
{
    if i < s.len() && is_dec_digit(s[i as int]) {
        1 + dec_digits_delta(s, i + 1)
    } else {
        0
    }
}

/// Length of the run of hexadecimal digits starting at `i`.
pub open spec fn hex_digits_delta(s: Seq<char>, i: nat) -> nat
    decreases rem(s, i),
{
    if i < s.len() && is_hex_digit(s[i as int]) {
        1 + hex_digits_delta(s, i + 1)
    } else {
        0
    }
}

/// Characters consumed by one line comment at `i`: the two slashes and the
/// rest of the line, or nothing if no comment starts here.
pub open spec fn comment_delta(s: Seq<char>, i: nat) -> nat {
    if i + 2 <= s.len() && s[i as int] == '/' && s[i + 1 as int] == '/' {
        2 + line_delta(s, i + 2)
    } else {
        0
    }
}

/// Characters consumed by the trivia scanner: alternating line comments and
/// whitespace runs until neither applies.
pub open spec fn skip_delta(s: Seq<char>, i: nat) -> nat
    decreases rem(s, i),
{
    let d1 = comment_delta(s, i);
    let d2 = spaces_delta(s, i + d1);
    if d1 + d2 == 0 {
        0
    } else {
        d1 + d2 + skip_delta(s, i + d1 + d2)
    }
}

/// Does the literal `pat` occur at position `i`?
pub open spec fn match_at(s: Seq<char>, i: nat, pat: Seq<char>) -> bool {
    i + pat.len() <= s.len() && s.subrange(i as int, (i + pat.len()) as int) == pat
}

/// Skip trivia, then match the literal `pat`: the characters consumed, and
/// whether the literal was found.  On a miss the trivia stays consumed.
pub open spec fn text_step(s: Seq<char>, i: nat, pat: Seq<char>) -> (nat, bool) {
    let d = skip_delta(s, i);
    if match_at(s, i + d, pat) {
        (d + pat.len(), true)
    } else {
        (d, false)
    }
}

/// The diagnostic message for a failed expectation at position `i`: the
/// construct's name, then `size` characters of source context, then the
/// remaining input.
pub open spec fn expected_msg(s: Seq<char>, i: nat, name: Seq<char>, size: nat) -> Seq<char> {
    let excerpt = if i + size <= s.len() {
        s.subrange(i as int, (i + size) as int)
    } else {
        Seq::<char>::empty()
    };
    let rest = if i + size <= s.len() {
        s.subrange((i + size) as int, s.len() as int)
    } else {
        Seq::<char>::empty()
    };
    "Expected `"@ + name + "`: "@ + excerpt + rest
}

/// As [`text_step`], but a miss is a parse error naming the literal.
pub open spec fn consume_step(s: Seq<char>, i: nat, pat: Seq<char>) -> Result<nat, Seq<char>> {
    let (d, m) = text_step(s, i, pat);
    if m {
        Ok(d)
    } else {
        Err(expected_msg(s, i + d, pat, pat.len()))
    }
}

/// Skip trivia, then take the maximal run of identifier characters: the
/// characters consumed and the identifier itself (possibly empty).
pub open spec fn name_step(s: Seq<char>, i: nat) -> (nat, Seq<char>) {
    let d = skip_delta(s, i);
    let e = letters_delta(s, i + d);
    ((d + e) as nat, s.subrange((i + d) as int, (i + d + e) as int))
}

/// Skip trivia, then take the maximal run of decimal digits.
pub open spec fn dec_run_step(s: Seq<char>, i: nat) -> (nat, Seq<char>) {
    let d = skip_delta(s, i);
    let e = dec_digits_delta(s, i + d);
    ((d + e) as nat, s.subrange((i + d) as int, (i + d + e) as int))
}

/// Skip trivia, then take the maximal run of hexadecimal digits.
pub open spec fn hex_run_step(s: Seq<char>, i: nat) -> (nat, Seq<char>) {
    let d = skip_delta(s, i);
    let e = hex_digits_delta(s, i + d);
    ((d + e) as nat, s.subrange((i + d) as int, (i + d + e) as int))
}

/// A run of `k` decimal digits bounded by a non-digit (or the end of the
/// input) scans as exactly `k` characters.
pub proof fn lemma_digits_run(s: Seq<char>, i: nat, k: nat)
    requires
        i + k <= s.len(),
        forall|j: int| 0 <= j < k ==> is_dec_digit(#[trigger] s[i + j]),
        i + k == s.len() || !is_dec_digit(s[(i + k) as int]),
    ensures
        dec_digits_delta(s, i) == k,
    decreases k,
{
    if k == 0 {
        assert(dec_digits_delta(s, i) == 0);
    } else {
        assert(is_dec_digit(s[i as int])) by {
            assert(is_dec_digit(s[i as int + 0]));
        }
        assert forall|j: int| 0 <= j < k - 1 implies is_dec_digit(#[trigger] s[i as int + 1 + j]) by {
            assert(is_dec_digit(s[i as int + (j + 1)]));
        }
        lemma_digits_run(s, i + 1, (k - 1) as nat);
    }
}

/// A run of `k` identifier characters bounded by a non-identifier
/// character (or the end of the input) scans as exactly `k` characters.
pub proof fn lemma_letters_run(s: Seq<char>, i: nat, k: nat)
    requires
        i + k <= s.len(),
        forall|j: int| 0 <= j < k ==> is_letter_char(#[trigger] s[i + j]),
        i + k == s.len() || !is_letter_char(s[(i + k) as int]),
    ensures
        letters_delta(s, i) == k,
    decreases k,
{
    if k > 0 {
        assert(is_letter_char(s[i as int])) by {
            assert(is_letter_char(s[i as int + 0]));
        }
        assert forall|j: int| 0 <= j < k - 1 implies is_letter_char(
            #[trigger] s[i as int + 1 + j],
        ) by {
            assert(is_letter_char(s[i as int + (j + 1)]));
        }
        lemma_letters_run(s, i + 1, (k - 1) as nat);
    }
}

/// Nothing to skip at a position holding neither whitespace nor a slash.
pub proof fn lemma_no_trivia(s: Seq<char>, i: nat)
    requires
        i < s.len(),
        !is_space(s[i as int]),
        s[i as int] != '/',
    ensures
        skip_delta(s, i) == 0,
{
    assert(comment_delta(s, i) == 0);
    assert(spaces_delta(s, i) == 0);
}

/// An integer literal: an optional `0x` prefix selects base sixteen, and the
/// digit run must be nonempty and fit in an unsigned 32-bit value.
pub open spec fn spec_parse_int(s: Seq<char>, i: nat) -> Result<(nat, ExprV), Seq<char>> {
    let (d1, hex) = text_step(s, i, seq!['0', 'x']);
    if hex {
        let (d2, run) = hex_run_step(s, i + d1);
        if run.len() > 0 && hex_val(run) <= u32::MAX {
            Ok(((d1 + d2) as nat, ExprV::Int { value: hex_val(run) as u32 }))
        } else {
            Err(expected_msg(s, i + d1 + d2, "hexadecimal number"@, run.len()))
        }
    } else {
        let (d2, run) = dec_run_step(s, i + d1);
        if run.len() > 0 && dec_val(run) <= u32::MAX {
            Ok(((d1 + d2) as nat, ExprV::Int { value: dec_val(run) as u32 }))
        } else {
            Err(expected_msg(s, i + d1 + d2, "base10 number"@, run.len()))
        }
    }
}

/// A type name: `int` or `void`, by ordered choice.
pub open spec fn spec_parse_type(s: Seq<char>, i: nat) -> Result<(nat, Type), Seq<char>> {
    let (d1, m1) = text_step(s, i, seq!['i', 'n', 't']);
    if m1 {
        Ok((d1, Type::Int))
    } else {
        let (d2, m2) = text_step(s, i, seq!['v', 'o', 'i', 'd']);
        if m2 {
            Ok((d2, Type::Void))
        } else {
            Err(expected_msg(s, i, "type"@, 1))
        }
    }
}

/// A factor: a parenthesized expression, or an integer literal.
pub open spec fn spec_parse_factor(s: Seq<char>, i: nat) -> Result<(nat, ExprV), Seq<char>>
    decreases rem(s, i), 0int,
{
    let (d1, p) = text_step(s, i, seq!['(']);
    if p {
        match spec_parse_expr(s, i + d1) {
            Ok((d2, e)) => match consume_step(s, i + d1 + d2, seq![')']) {
                Ok(d3) => Ok(((d1 + d2 + d3) as nat, e)),
                Err(m) => Err(m),
            },
            Err(m) => Err(m),
        }
    } else {
        match spec_parse_int(s, i + d1) {
            Ok((d2, e)) => Ok(((d1 + d2) as nat, e)),
            Err(m) => Err(m),
        }
    }
}

/// A term: a factor, optionally followed by `/` or `*` and a full term as
/// the right operand.
pub open spec fn spec_parse_term(s: Seq<char>, i: nat) -> Result<(nat, ExprV), Seq<char>>
    decreases rem(s, i), 1int,
{
    match spec_parse_factor(s, i) {
        Err(m) => Err(m),
        Ok((d1, lhs)) => {
            let (da, ma) = text_step(s, i + d1, seq!['/']);
            if ma {
                match spec_parse_term(s, i + d1 + da) {
                    Err(m) => Err(m),
                    Ok((d3, rhs)) => Ok(
                        ((d1 + da + d3) as nat, ExprV::BinOp {
                            lhs: Box::new(lhs),
                            rhs: Box::new(rhs),
                            op: Op::Div,
                        }),
                    ),
                }
            } else {
                let (db, mb) = text_step(s, i + d1, seq!['*']);
                if mb {
                    match spec_parse_term(s, i + d1 + db) {
                        Err(m) => Err(m),
                        Ok((d3, rhs)) => Ok(
                            ((d1 + db + d3) as nat, ExprV::BinOp {
                                lhs: Box::new(lhs),
                                rhs: Box::new(rhs),
                                op: Op::Mul,
                            }),
                        ),
                    }
                } else {
                    Ok((d1, lhs))
                }
            }
        },
    }
}

/// An additive expression: a term, optionally followed by `-` or `+` and a
/// full expression as the right operand.
pub open spec fn spec_parse_additive(s: Seq<char>, i: nat) -> Result<(nat, ExprV), Seq<char>>
    decreases rem(s, i), 2int,
{
    match spec_parse_term(s, i) {
        Err(m) => Err(m),
        Ok((d1, lhs)) => {
            let (da, ma) = text_step(s, i + d1, seq!['-']);
            if ma {
                match spec_parse_expr(s, i + d1 + da) {
                    Err(m) => Err(m),
                    Ok((d3, rhs)) => Ok(
                        ((d1 + da + d3) as nat, ExprV::BinOp {
                            lhs: Box::new(lhs),
                            rhs: Box::new(rhs),
                            op: Op::Sub,
                        }),
                    ),
                }
            } else {
                let (db, mb) = text_step(s, i + d1, seq!['+']);
                if mb {
                    match spec_parse_expr(s, i + d1 + db) {
                        Err(m) => Err(m),
                        Ok((d3, rhs)) => Ok(
                            ((d1 + db + d3) as nat, ExprV::BinOp {
                                lhs: Box::new(lhs),
                                rhs: Box::new(rhs),
                                op: Op::Add,
                            }),
                        ),
                    }
                } else {
                    Ok((d1, lhs))
                }
            }
        },
    }
}

/// A relational expression: an additive expression, optionally followed by
/// `<=`, `>=`, `<` or `>` (tried in that order) and a full expression.
pub open spec fn spec_parse_relational(s: Seq<char>, i: nat) -> Result<(nat, ExprV), Seq<char>>
    decreases rem(s, i), 3int,
{
    match spec_parse_additive(s, i) {
        Err(m) => Err(m),
        Ok((d1, lhs)) => {
            let (da, ma) = text_step(s, i + d1, seq!['<', '=']);
            let (db, mb) = text_step(s, i + d1, seq!['>', '=']);
            let (dc, mc) = text_step(s, i + d1, seq!['<']);
            let (dd, md) = text_step(s, i + d1, seq!['>']);
            let choice: Option<(nat, Op)> = if ma {
                Some((da, Op::Le))
            } else if mb {
                Some((db, Op::Ge))
            } else if mc {
                Some((dc, Op::Lt))
            } else if md {
                Some((dd, Op::Gt))
            } else {
                None
            };
            match choice {
                Some((dop, op)) => match spec_parse_expr(s, i + d1 + dop) {
                    Err(m) => Err(m),
                    Ok((d3, rhs)) => Ok(
                        ((d1 + dop + d3) as nat, ExprV::BinOp {
                            lhs: Box::new(lhs),
                            rhs: Box::new(rhs),
                            op,
                        }),
                    ),
                },
                None => Ok((d1, lhs)),
            }
        },
    }
}

/// A full expression.  Assignment is a statement form, not an operator, so
/// the expression entry point is the relational level.
pub open spec fn spec_parse_expr(s: Seq<char>, i: nat) -> Result<(nat, ExprV), Seq<char>>
    decreases rem(s, i), 4int,
{
    spec_parse_relational(s, i)
}

/// A return statement, or a bare expression statement: an optional `return`
/// keyword, an expression, and a terminating `;`.
pub open spec fn spec_parse_return_statement(s: Seq<char>, i: nat) -> Result<
    (nat, ExprV),
    Seq<char>,
>
    decreases rem(s, i), 5int,
{
    let (d1, ret) = text_step(s, i, seq!['r', 'e', 't', 'u', 'r', 'n']);
    match spec_parse_expr(s, i + d1) {
        Err(m) => Err(m),
        Ok((d2, e)) => match consume_step(s, i + d1 + d2, seq![';']) {
            Err(m) => Err(m),
            Ok(d3) => Ok(
                ((d1 + d2 + d3) as nat, if ret {
                    ExprV::Return { expr: Box::new(e) }
                } else {
                    e
                }),
            ),
        },
    }
}

/// An assignment statement: a name, `=`, an expression, and `;`.
pub open spec fn spec_parse_assign_statement(s: Seq<char>, i: nat) -> Result<
    (nat, ExprV),
    Seq<char>,
>
    decreases rem(s, i), 5int,
{
    let (d1, nm) = name_step(s, i);
    match consume_step(s, i + d1, seq!['=']) {
        Err(m) => Err(m),
        Ok(d2) => match spec_parse_expr(s, i + d1 + d2) {
            Err(m) => Err(m),
            Ok((d3, e)) => match consume_step(s, i + d1 + d2 + d3, seq![';']) {
                Err(m) => Err(m),
                Ok(d4) => Ok(
                    ((d1 + d2 + d3 + d4) as nat, ExprV::Assign { name: nm, rhs: Box::new(e) }),
                ),
            },
        },
    }
}

/// A declaration statement: a type, a name, an optional `=` initializer,
/// and `;`.
pub open spec fn spec_parse_declaration_statement(s: Seq<char>, i: nat) -> Result<
    (nat, ExprV),
    Seq<char>,
>
    decreases rem(s, i), 5int,
{
    match spec_parse_type(s, i) {
        Err(m) => Err(m),
        Ok((d1, ty)) => {
            let (d2, nm) = name_step(s, i + d1);
            let (d3, has_init) = text_step(s, i + d1 + d2, seq!['=']);
            if !has_init {
                match consume_step(s, i + d1 + d2 + d3, seq![';']) {
                    Err(m) => Err(m),
                    Ok(d4) => Ok(
                        ((d1 + d2 + d3 + d4) as nat, ExprV::Decl {
                            ty,
                            name: nm,
                            init: None,
                        }),
                    ),
                }
            } else {
                match spec_parse_expr(s, i + d1 + d2 + d3) {
                    Err(m) => Err(m),
                    Ok((d4, e)) => match consume_step(s, i + d1 + d2 + d3 + d4, seq![';']) {
                        Err(m) => Err(m),
                        Ok(d5) => Ok(
                            ((d1 + d2 + d3 + d4 + d5) as nat, ExprV::Decl {
                                ty,
                                name: nm,
                                init: Some(Box::new(e)),
                            }),
                        ),
                    },
                }
            }
        },
    }
}

/// A conditional statement: `if`, a parenthesized condition, a then body,
/// and an optional `else` body.  A body is a compound statement or a single
/// bare statement, tried in that order; each body alternative is a trial
/// parse that restores the starting position when it declines.
pub open spec fn spec_parse_selection_statement(s: Seq<char>, i: nat) -> Result<
    (nat, ExprV),
    Seq<char>,
>
    decreases rem(s, i), 5int,
{
    match consume_step(s, i, seq!['i', 'f']) {
        Err(m) => Err(m),
        Ok(d1) => match consume_step(s, i + d1, seq!['(']) {
            Err(m) => Err(m),
            Ok(d2) => match spec_parse_expr(s, i + d1 + d2) {
                Err(m) => Err(m),
                Ok((d3, cond)) => match consume_step(s, i + d1 + d2 + d3, seq![')']) {
                    Err(m) => Err(m),
                    Ok(d4) => {
                        let q = i + d1 + d2 + d3 + d4;
                        match spec_parse_if_body(s, q) {
                            Err(m) => Err(m),
                            Ok((d5, then)) => {
                                let (d6, otherwise) = spec_parse_else_opt(s, q + d5);
                                Ok(
                                    ((d1 + d2 + d3 + d4 + d5 + d6) as nat, ExprV::If {
                                        cond: Box::new(cond),
                                        then,
                                        otherwise,
                                    }),
                                )
                            },
                        }
                    },
                },
            },
        },
    }
}

/// The body of a branch: a compound statement, or a single statement
/// wrapped as a one-element sequence; if neither matches, a parse error
/// naming the construct.
pub open spec fn spec_parse_if_body(s: Seq<char>, i: nat) -> Result<(nat, Seq<ExprV>), Seq<char>>
    decreases rem(s, i), 11int,
{
    match spec_parse_compound_statement(s, i) {
        Ok((d, es)) => Ok((d, es)),
        Err(_) => match spec_parse_statement(s, i) {
            Ok((d, e)) => Ok((d, seq![e])),
            Err(_) => Err(expected_msg(s, i, "body of if"@, 1)),
        },
    }
}

/// An optional else part: `else` followed by a body, or nothing.  Both
/// alternatives are trial parses; when they decline, the else branch is the
/// empty sequence and nothing is consumed.
pub open spec fn spec_parse_else_opt(s: Seq<char>, i: nat) -> (nat, Seq<ExprV>)
    decreases rem(s, i), 12int,
{
    let (d1, m) = text_step(s, i, seq!['e', 'l', 's', 'e']);
    if m {
        match spec_parse_if_body(s, i + d1) {
            Ok((d2, es)) => ((d1 + d2) as nat, es),
            Err(_) => (0, Seq::<ExprV>::empty()),
        }
    } else {
        (0, Seq::<ExprV>::empty())
    }
}

/// A statement: a return statement, an assignment, a declaration, or a
/// conditional, by ordered choice of trial parses; each alternative fully
/// matches or restores the starting position.  If none matches, the error
/// names the last attempted construct.
pub open spec fn spec_parse_statement(s: Seq<char>, i: nat) -> Result<(nat, ExprV), Seq<char>>
    decreases rem(s, i), 6int,
{
    match spec_parse_return_statement(s, i) {
        Ok((d, e)) => Ok((d, e)),
        Err(_) => match spec_parse_assign_statement(s, i) {
            Ok((d, e)) => Ok((d, e)),
            Err(_) => match spec_parse_declaration_statement(s, i) {
                Ok((d, e)) => Ok((d, e)),
                Err(_) => match spec_parse_selection_statement(s, i) {
                    Ok((d, e)) => Ok((d, e)),
                    Err(_) => Err(expected_msg(s, i, "type"@, 1)),
                },
            },
        },
    }
}

/// The statements of a compound statement, up to and including the closing
/// `}`.  A successful statement always consumes at least one character, so
/// the guarded arm below is never reached.
pub open spec fn spec_parse_stmts(s: Seq<char>, i: nat) -> Result<(nat, Seq<ExprV>), Seq<char>>
    decreases rem(s, i), 9int,
{
    let (d, m) = text_step(s, i, seq!['}']);
    if m {
        Ok((d, Seq::<ExprV>::empty()))
    } else {
        match spec_parse_statement(s, i + d) {
            Err(e) => Err(e),
            Ok((ds, st)) => if ds > 0 && i + d + ds <= s.len() {
                match spec_parse_stmts(s, i + d + ds) {
                    Err(e) => Err(e),
                    Ok((dr, rest)) => Ok(((d + ds + dr) as nat, seq![st] + rest)),
                }
            } else {
                Err(expected_msg(s, i + d, "type"@, 1))
            },
        }
    }
}

/// A compound statement: `{`, statements, `}`.
pub open spec fn spec_parse_compound_statement(s: Seq<char>, i: nat) -> Result<
    (nat, Seq<ExprV>),
    Seq<char>,
>
    decreases rem(s, i), 10int,
{
    match consume_step(s, i, seq!['{']) {
        Err(m) => Err(m),
        Ok(d1) => match spec_parse_stmts(s, i + d1) {
            Err(m) => Err(m),
            Ok((d2, es)) => Ok(((d1 + d2) as nat, es)),
        },
    }
}

/// A parameter list, up to and including the closing `)`: `type name` pairs,
/// each with an optional trailing comma.
pub open spec fn spec_parse_paramlist(s: Seq<char>, i: nat) -> Result<(nat, Seq<ArgV>), Seq<char>>
    decreases rem(s, i),
{
    let (d1, m) = text_step(s, i, seq![')']);
    if m {
        Ok((d1, Seq::<ArgV>::empty()))
    } else {
        match spec_parse_type(s, i + d1) {
            Err(e) => Err(e),
            Ok((d2, ty)) => {
                let (d3, nm) = name_step(s, i + d1 + d2);
                let (d4, _comma) = text_step(s, i + d1 + d2 + d3, seq![',']);
                match spec_parse_paramlist(s, i + d1 + d2 + d3 + d4) {
                    Err(e) => Err(e),
                    Ok((dr, rest)) => Ok(
                        ((d1 + d2 + d3 + d4 + dr) as nat, seq![ArgV { ty, name: nm }] + rest),
                    ),
                }
            },
        }
    }
}

/// A function: a return type, a name, a parameter list in parentheses, and
/// a compound-statement body.
#[verifier::opaque]
pub open spec fn spec_parse_function(s: Seq<char>, i: nat) -> Result<(nat, FunctionV), Seq<char>> {
    match spec_parse_type(s, i) {
        Err(m) => Err(m),
        Ok((d1, ty)) => {
            let (d2, nm) = name_step(s, i + d1);
            match consume_step(s, i + d1 + d2, seq!['(']) {
                Err(m) => Err(m),
                Ok(d3) => match spec_parse_paramlist(s, i + d1 + d2 + d3) {
                    Err(m) => Err(m),
                    Ok((d4, args)) => match spec_parse_compound_statement(
                        s,
                        i + d1 + d2 + d3 + d4,
                    ) {
                        Err(m) => Err(m),
                        Ok((d5, body)) => Ok(
                            ((d1 + d2 + d3 + d4 + d5) as nat, FunctionV {
                                ret_type: ty,
                                exprs: body,
                                name: nm,
                                args,
                            }),
                        ),
                    },
                },
            }
        },
    }
}

/// How a function parse unfolds, step by step: each clause gives the
/// outcome once the outcomes of the constituent rules are known.
pub proof fn lemma_spec_parse_function_cases(s: Seq<char>, i: nat)
    ensures
        ({
            let t = spec_parse_type(s, i);
            &&& (t is Err ==> spec_parse_function(s, i) == Result::<
                (nat, FunctionV),
                Seq<char>,
            >::Err(t->Err_0))
            &&& (t is Ok ==> {
                let d1 = t->Ok_0.0;
                let ty = t->Ok_0.1;
                let (d2, nm) = name_step(s, i + d1);
                let c = consume_step(s, i + d1 + d2, seq!['(']);
                &&& (c is Err ==> spec_parse_function(s, i) == Result::<
                    (nat, FunctionV),
                    Seq<char>,
                >::Err(c->Err_0))
                &&& (c is Ok ==> {
                    let d3 = c->Ok_0;
                    let pl = spec_parse_paramlist(s, i + d1 + d2 + d3);
                    &&& (pl is Err ==> spec_parse_function(s, i) == Result::<
                        (nat, FunctionV),
                        Seq<char>,
                    >::Err(pl->Err_0))
                    &&& (pl is Ok ==> {
                        let d4 = pl->Ok_0.0;
                        let args = pl->Ok_0.1;
                        let cs = spec_parse_compound_statement(s, i + d1 + d2 + d3 + d4);
                        &&& (cs is Err ==> spec_parse_function(s, i) == Result::<
                            (nat, FunctionV),
                            Seq<char>,
                        >::Err(cs->Err_0))
                        &&& (cs is Ok ==> spec_parse_function(s, i) == Result::<
                            (nat, FunctionV),
                            Seq<char>,
                        >::Ok(
                            (
                                (d1 + d2 + d3 + d4 + cs->Ok_0.0) as nat,
                                FunctionV {
                                    ret_type: ty,
                                    exprs: cs->Ok_0.1,
                                    name: nm,
                                    args: args,
                                },
                            ),
                        ))
                    })
                })
            })
        }),
{
    reveal(spec_parse_function);
}

/// The top level: functions until only trivia remains.  The trailing trivia
/// is scanned but not counted as consumed.  A successful function always
/// consumes at least one character, so the guarded arm is never reached.
pub open spec fn spec_parse_top_level(s: Seq<char>, i: nat) -> Result<
    (nat, Seq<FunctionV>),
    Seq<char>,
>
    decreases rem(s, i),
{
    let d = skip_delta(s, i);
    if i + d >= s.len() {
        Ok((0, Seq::<FunctionV>::empty()))
    } else {
        match spec_parse_function(s, i + d) {
            Err(m) => Err(m),
            Ok((df, f)) => if df > 0 && i + d + df <= s.len() {
                match spec_parse_top_level(s, i + d + df) {
                    Err(m) => Err(m),
                    Ok((dr, fs)) => Ok(((d + df + dr) as nat, seq![f] + fs)),
                }
            } else {
                Err(expected_msg(s, i + d, "type"@, 1))
            },
        }
    }
}

/// A whole source text, parsed from the beginning.
pub open spec fn spec_parse_program(s: Seq<char>) -> Result<ProgramV, Seq<char>> {
    match spec_parse_top_level(s, 0) {
        Err(m) => Err(m),
        Ok((_, fs)) => Ok(ProgramV { functions: fs }),
    }
}

/// Parsing is deterministic: the outcome is a function of the source text
/// alone, so any two outcomes of parsing the same text — in particular the
/// syntax trees of two successful parses — are identical.  The executable
/// parser's contract pins its result to [`spec_parse_program`], so this
/// covers any two runs of it.
pub proof fn lemma_parse_deterministic(
    s: Seq<char>,
    r1: Result<ProgramV, Seq<char>>,
    r2: Result<ProgramV, Seq<char>>,
)
    requires
        r1 == spec_parse_program(s),
        r2 == spec_parse_program(s),
    ensures
        r1 == r2,
{
}

} // verus!
