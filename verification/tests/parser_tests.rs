use minic::ast::{Deparse, Expr, Program, Type};
use minic::codegen::generate;
use minic::constants::Op;
use minic::parser::{parse, skip, State};

fn test_main1(code: &str, ret_type: Type, exprs: Vec<Expr>) {
    let program = parse(code).unwrap();
    let function = &program.functions[0];
    assert_eq!(program.functions.len(), 1);
    assert_eq!(function.name, "main");
    assert_eq!(function.ret_type, ret_type);
    assert_eq!(function.exprs, exprs);
    assert!(generate(&program).is_ok());
}

#[test]
fn test_skip_whitespace() {
    assert_eq!(
        skip(State {
            code: "\n",
            index: 0
        })
        .unwrap()
        .0
        .index,
        1
    );
    assert_eq!(
        skip(State {
            code: "\n\n \t\n ",
            index: 1
        })
        .unwrap()
        .0
        .index,
        6
    );
}

#[test]
fn test_parse1() {
    let code = "int main() { return 0; }";
    let ret_type = Type::Int;
    let ret_expr = Expr::Return {
        expr: Box::new(Expr::Int { value: 0 }),
    };
    let exprs = vec![ret_expr];
    test_main1(code, ret_type, exprs);
}

#[test]
fn test_void1() {
    let code = "void main() { 42 + 24; }";
    let ret_type = Type::Void;
    let exprs = vec![Expr::BinOp {
        op: Op::Add,
        lhs: Box::new(Expr::Int { value: 42 }),
        rhs: Box::new(Expr::Int { value: 24 }),
    }];
    test_main1(code, ret_type, exprs);
}

#[test]
fn test_statements1() {
    let code = "int main() { 2 + 3; return 0; }";
    let ret_type = Type::Int;
    let exprs = vec![
        Expr::BinOp {
            op: Op::Add,
            lhs: Box::new(Expr::Int { value: 2 }),
            rhs: Box::new(Expr::Int { value: 3 }),
        },
        Expr::Return {
            expr: Box::new(Expr::Int { value: 0 }),
        },
    ];
    test_main1(code, ret_type, exprs);
}

#[test]
fn test_conditional1() {
    let code = "int main() { if (1) { return 0; } else { return 1; } }";
    let ret_type = Type::Int;
    let exprs = vec![Expr::If {
        cond: Box::new(Expr::Int { value: 1 }),
        then: vec![Expr::Return {
            expr: Box::new(Expr::Int { value: 0 }),
        }],
        otherwise: vec![Expr::Return {
            expr: Box::new(Expr::Int { value: 1 }),
        }],
    }];
    test_main1(code, ret_type, exprs);
}

#[test]
fn test_conditional2() {
    let code = "int main() { if (2 > 1) { return 0; } else { return 1; } }";
    let ret_type = Type::Int;
    let exprs = vec![Expr::If {
        cond: Box::new(Expr::BinOp {
            op: Op::Gt,
            lhs: Box::new(Expr::Int { value: 2 }),
            rhs: Box::new(Expr::Int { value: 1 }),
        }),
        then: vec![Expr::Return {
            expr: Box::new(Expr::Int { value: 0 }),
        }],
        otherwise: vec![Expr::Return {
            expr: Box::new(Expr::Int { value: 1 }),
        }],
    }];
    test_main1(code, ret_type, exprs);
}

#[test]
fn test_parse2() {
    let code = "int main() { return 3 + 2; }";
    let ret_type = Type::Int;
    let expr = Expr::BinOp {
        op: Op::Add,
        lhs: Box::new(Expr::Int { value: 3 }),
        rhs: Box::new(Expr::Int { value: 2 }),
    };
    let exprs = vec![Expr::Return {
        expr: Box::new(expr),
    }];
    test_main1(code, ret_type, exprs);
}

#[test]
fn test_parse3() {
    let code = "void main(int ls, int js) { (0 + 3738978009); 2714820978 ; }";
    let program = parse(code).unwrap();
    let function = &program.functions[0];
    assert_eq!(program.functions.len(), 1);
    assert_eq!(function.name, "main");
    assert_eq!(function.ret_type, Type::Void);
    assert_eq!(function.args.len(), 2);
    assert_eq!(function.args[0].name, "ls");
    assert_eq!(function.args[1].name, "js");
    let exprs = vec![
        Expr::BinOp {
            op: Op::Add,
            lhs: Box::new(Expr::Int { value: 0 }),
            rhs: Box::new(Expr::Int { value: 3738978009 }),
        },
        Expr::Int { value: 2714820978 },
    ];
    assert_eq!(function.exprs, exprs);
    assert!(generate(&program).is_ok());
}

#[test]
fn test_assign1() {
    let code = "int main() { int a; int b; a = 2; b = 3 + 2; return 1 + 2; }";
    let ret_type = Type::Int;
    let exprs = vec![
        Expr::Decl {
            ty: Type::Int,
            name: "a".to_string(),
            init: None,
        },
        Expr::Decl {
            ty: Type::Int,
            name: "b".to_string(),
            init: None,
        },
        Expr::Assign {
            name: "a".to_string(),
            rhs: Box::new(Expr::Int { value: 2 }),
        },
        Expr::Assign {
            name: "b".to_string(),
            rhs: Box::new(Expr::BinOp {
                op: Op::Add,
                lhs: Box::new(Expr::Int { value: 3 }),
                rhs: Box::new(Expr::Int { value: 2 }),
            }),
        },
        Expr::Return {
            expr: Box::new(Expr::BinOp {
                op: Op::Add,
                lhs: Box::new(Expr::Int { value: 1 }),
                rhs: Box::new(Expr::Int { value: 2 }),
            }),
        },
    ];
    test_main1(code, ret_type, exprs);
}

#[test]
fn test_decl1() {
    let code = "int main() { int a; }";
    let ret_type = Type::Int;
    let exprs = vec![Expr::Decl {
        ty: Type::Int,
        name: "a".to_string(),
        init: None,
    }];
    test_main1(code, ret_type, exprs);
}

#[test]
fn test_decl2() {
    let code = "int main() { int a = 2; int b = 3 + 2; return 1 + 2; }";
    let ret_type = Type::Int;
    let exprs = vec![
        Expr::Decl {
            ty: Type::Int,
            name: "a".to_string(),
            init: Some(Box::new(Expr::Int { value: 2 })),
        },
        Expr::Decl {
            ty: Type::Int,
            name: "b".to_string(),
            init: Some(Box::new(Expr::BinOp {
                op: Op::Add,
                lhs: Box::new(Expr::Int { value: 3 }),
                rhs: Box::new(Expr::Int { value: 2 }),
            })),
        },
        Expr::Return {
            expr: Box::new(Expr::BinOp {
                op: Op::Add,
                lhs: Box::new(Expr::Int { value: 1 }),
                rhs: Box::new(Expr::Int { value: 2 }),
            }),
        },
    ];
    test_main1(code, ret_type, exprs);
}

#[test]
fn test_parse_mixed_binop1() {
    let code = "int main() { return 3 + 2 + (5 - 7 * 10); }";
    let ret_type = Type::Int;
    let expr = Expr::BinOp {
        op: Op::Add,
        lhs: Box::new(Expr::Int { value: 3 }),
        rhs: Box::new(Expr::BinOp {
            op: Op::Add,
            lhs: Box::new(Expr::Int { value: 2 }),
            rhs: Box::new(Expr::BinOp {
                op: Op::Sub,
                lhs: Box::new(Expr::Int { value: 5 }),
                rhs: Box::new(Expr::BinOp {
                    op: Op::Mul,
                    lhs: Box::new(Expr::Int { value: 7 }),
                    rhs: Box::new(Expr::Int { value: 10 }),
                }),
            }),
        }),
    };
    let exprs = vec![Expr::Return {
        expr: Box::new(expr),
    }];
    test_main1(code, ret_type, exprs);
}

fn lcg(state: &mut u64) -> u32 {
    *state = state
        .wrapping_mul(6364136223846793005)
        .wrapping_add(1442695040888963407);
    (*state >> 33) as u32
}

fn arb_op(state: &mut u64) -> Op {
    match lcg(state) % 4 {
        0 => Op::Add,
        1 => Op::Sub,
        2 => Op::Mul,
        _ => Op::Div,
    }
}

fn arb_expr(state: &mut u64, depth: u32) -> Expr {
    if depth < 4 && lcg(state) % 5 == 0 {
        Expr::BinOp {
            op: arb_op(state),
            lhs: Box::new(arb_expr(state, depth + 1)),
            rhs: Box::new(arb_expr(state, depth + 1)),
        }
    } else {
        Expr::Int {
            value: lcg(state),
        }
    }
}

fn arb_name(state: &mut u64) -> String {
    let mut s = String::new();
    for _ in 0..2 {
        let c = (b'a' + (lcg(state) % 26) as u8) as char;
        s.push(c);
    }
    s
}

fn arb_function(state: &mut u64) -> minic::ast::Function {
    let mut exprs = Vec::new();
    for _ in 0..2 {
        exprs.push(arb_expr(state, 0));
    }
    let mut args = Vec::new();
    for _ in 0..2 {
        args.push(minic::ast::Arg {
            ty: Type::Int,
            name: arb_name(state),
        });
    }
    minic::ast::Function {
        ret_type: Type::Void,
        exprs,
        name: arb_name(state),
        args,
    }
}

fn arb_program(state: &mut u64) -> Program {
    let mut functions = Vec::new();
    for _ in 0..2 {
        functions.push(arb_function(state));
    }
    Program { functions }
}

#[test]
fn test_prop1() {
    let mut state: u64 = 10;
    for _ in 0..10 {
        let program = arb_program(&mut state);
        let code = program.deparse();
        let parsed = parse(&code).unwrap();
        assert!(generate(&program).is_ok());
        assert_eq!(parsed, program);
    }
}
