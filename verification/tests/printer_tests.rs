use minic::ast::{Arg, Deparse, Expr, Type};
use minic::constants::Op;
use minic::numerals::{u32_from_dec, u32_from_hex, u32_to_string};
use minic::parser::{head, is_letter, is_number, parse, print_state, tail, State};

#[test]
fn op_spellings() {
    assert_eq!(Op::Add.deparse(), "+");
    assert_eq!(Op::Sub.deparse(), "-");
    assert_eq!(Op::Mul.deparse(), "*");
    assert_eq!(Op::Div.deparse(), "/");
    assert_eq!(Op::Eq.deparse(), "==");
    assert_eq!(Op::Ne.deparse(), "!=");
    assert_eq!(Op::Le.deparse(), "<=");
    assert_eq!(Op::Ge.deparse(), ">=");
    assert_eq!(Op::Lt.deparse(), "<");
    assert_eq!(Op::Gt.deparse(), ">");
    assert_eq!(Op::Or.deparse(), "||");
    assert_eq!(Op::And.deparse(), "&&");
}

#[test]
fn type_and_arg_spellings() {
    assert_eq!(Type::Int.deparse(), "int");
    assert_eq!(Type::Void.deparse(), "void");
    let a = Arg {
        ty: Type::Int,
        name: "x".to_string(),
    };
    assert_eq!(a.deparse(), "int x");
}

#[test]
fn integer_literals_print_in_decimal() {
    assert_eq!(Expr::Int { value: 0 }.deparse(), "0");
    assert_eq!(Expr::Int { value: 7 }.deparse(), "7");
    assert_eq!(Expr::Int { value: 4294967295 }.deparse(), "4294967295");
    assert_eq!(u32_to_string(1048576), "1048576");
}

#[test]
fn binops_print_fully_parenthesized() {
    let e = Expr::BinOp {
        op: Op::Add,
        lhs: Box::new(Expr::Int { value: 1 }),
        rhs: Box::new(Expr::BinOp {
            op: Op::Mul,
            lhs: Box::new(Expr::Int { value: 2 }),
            rhs: Box::new(Expr::Int { value: 3 }),
        }),
    };
    assert_eq!(e.deparse(), "(1 + (2 * 3))");
}

#[test]
fn statements_and_conditionals_print() {
    let e = Expr::If {
        cond: Box::new(Expr::Int { value: 1 }),
        then: vec![Expr::Return {
            expr: Box::new(Expr::Int { value: 0 }),
        }],
        otherwise: vec![Expr::Return {
            expr: Box::new(Expr::Int { value: 1 }),
        }],
    };
    assert_eq!(
        e.deparse(),
        "if (1) {\nreturn 0;\n} else {\nreturn 1;\n}"
    );
    let d = Expr::Decl {
        ty: Type::Int,
        name: "a".to_string(),
        init: Some(Box::new(Expr::Int { value: 2 })),
    };
    assert_eq!(d.deparse(), "int a = 2");
    let d2 = Expr::Decl {
        ty: Type::Int,
        name: "a".to_string(),
        init: None,
    };
    assert_eq!(d2.deparse(), "int a");
    let asg = Expr::Assign {
        name: "a".to_string(),
        rhs: Box::new(Expr::Int { value: 3 }),
    };
    assert_eq!(asg.deparse(), "a = 3");
    let v = Expr::Var {
        name: "a".to_string(),
    };
    assert_eq!(v.deparse(), "a");
    let dr = Expr::Deref {
        addr: Box::new(Expr::Int { value: 5 }),
    };
    assert_eq!(dr.deparse(), "*5");
}

#[test]
fn program_prints_and_reparses() {
    let program = parse("int main() { return 0; }").unwrap();
    let text = program.deparse();
    assert_eq!(text, "int main() {\nreturn 0 ;\n}");
    let again = parse(&text).unwrap();
    assert_eq!(again, program);
}

#[test]
fn parsing_twice_yields_identical_trees() {
    let code = "int main() { int a = 2; a = 3 + 2; return 1 + 2; }";
    let p1 = parse(code).unwrap();
    let p2 = parse(code).unwrap();
    assert_eq!(p1, p2);
}

#[test]
fn hex_literal_boundary() {
    let program = parse("int main() { return 0xFFFFFFFF; }").unwrap();
    assert_eq!(
        program.functions[0].exprs[0],
        minic::ast::Expr::Return {
            expr: Box::new(Expr::Int { value: 4294967295 })
        }
    );
    assert!(parse("int main() { return 0x100000000; }").is_err());
    assert!(parse("int main() { return 0x; }").is_err());
    let lower = parse("int main() { return 0xff; }").unwrap();
    assert_eq!(
        lower.functions[0].exprs[0],
        Expr::Return {
            expr: Box::new(Expr::Int { value: 255 })
        }
    );
}

#[test]
fn decimal_literal_boundary() {
    let program = parse("int main() { return 4294967295; }").unwrap();
    assert_eq!(
        program.functions[0].exprs[0],
        Expr::Return {
            expr: Box::new(Expr::Int { value: 4294967295 })
        }
    );
    assert!(parse("int main() { return 4294967296; }").is_err());
}

#[test]
fn numeral_conversions() {
    assert_eq!(u32_from_dec("42"), Some(42));
    assert_eq!(u32_from_dec("004"), Some(4));
    assert_eq!(u32_from_dec(""), None);
    assert_eq!(u32_from_dec("12a"), None);
    assert_eq!(u32_from_dec("4294967295"), Some(4294967295));
    assert_eq!(u32_from_dec("4294967296"), None);
    assert_eq!(u32_from_hex("FFFFFFFF"), Some(4294967295));
    assert_eq!(u32_from_hex("100000000"), None);
    assert_eq!(u32_from_hex("aB3"), Some(0xab3));
    assert_eq!(u32_from_hex(""), None);
    assert_eq!(u32_from_hex("zz"), None);
}

#[test]
fn numeral_round_trip_samples() {
    for v in [0u32, 1, 9, 10, 99, 1000000, 4294967295] {
        assert_eq!(u32_from_dec(&u32_to_string(v)), Some(v));
    }
}

#[test]
fn parse_error_messages_quote_the_source() {
    assert_eq!(parse("@").unwrap_err(), "Expected `type`: @");
    // The statement trials all fail (the return statement lacks its `;`),
    // so the error names the last attempted construct at the statement's
    // start, quoting one character of context and the remaining input.
    assert_eq!(
        parse("int main() { return 1 }").unwrap_err(),
        "Expected `type`: return 1 }"
    );
}

#[test]
fn comments_and_whitespace_are_trivia() {
    let program = parse("// leading comment\nint main() { // inner\n return 1; }\t\n").unwrap();
    assert_eq!(program.functions.len(), 1);
    let bare = parse("int main() { return 1; }").unwrap();
    assert_eq!(program, bare);
}

#[test]
fn cursor_primitives() {
    let st = State {
        code: "ab",
        index: 0,
    };
    assert_eq!(head(st), Some('a'));
    let st1 = tail(st);
    assert_eq!(st1.index, 1);
    assert_eq!(head(st1), Some('b'));
    let st2 = tail(st1);
    assert_eq!(head(st2), None);
    assert_eq!(tail(st2).index, 2);
    assert_eq!(print_state(st1), "b");
    assert_eq!(st1.rest(), Some("b"));
    assert!(is_letter('a'));
    assert!(is_letter('Z'));
    assert!(is_letter('_'));
    assert!(is_letter('7'));
    assert!(!is_letter('+'));
    assert!(is_number('3'));
    assert!(!is_number('x'));
}

#[test]
fn empty_input_is_an_empty_program() {
    let program = parse("").unwrap();
    assert_eq!(program.functions.len(), 0);
    let trivia = parse(" \n// nothing here\n").unwrap();
    assert_eq!(trivia.functions.len(), 0);
}
