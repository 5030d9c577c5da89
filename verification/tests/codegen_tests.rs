use minic::ast::{Arg, Expr, Function, Program, Type};
use minic::codegen::{generate, Instr, LowerError, Terminator, ValId};
use minic::constants::Op;
use minic::parser::parse;

#[test]
fn lower_return_constant() {
    let program = parse("int main() { return 7; }").unwrap();
    let module = generate(&program).unwrap();
    assert_eq!(module.functions.len(), 1);
    let f = &module.functions[0];
    assert_eq!(f.name, "main");
    assert_eq!(f.ret_type, Type::Int);
    assert_eq!(f.slots, vec![Type::Int]);
    assert_eq!(f.blocks.len(), 2);
    assert_eq!(
        f.blocks[0].instrs,
        vec![
            Instr::Const { value: 0 },
            Instr::Store {
                slot: 0,
                src: ValId { block: 0, instr: 0 }
            },
            Instr::Const { value: 7 },
            Instr::Store {
                slot: 0,
                src: ValId { block: 0, instr: 2 }
            },
        ]
    );
    assert_eq!(f.blocks[0].term, Some(Terminator::Br { target: 1 }));
    assert_eq!(f.blocks[1].instrs, vec![]);
    assert_eq!(f.blocks[1].term, Some(Terminator::Ret { slot: 0 }));
}

#[test]
fn lower_declarations_and_assignment() {
    let program = parse("int main() { int a = 2; a = 3; return 4; }").unwrap();
    let module = generate(&program).unwrap();
    let f = &module.functions[0];
    assert_eq!(f.slots, vec![Type::Int, Type::Int]);
    assert_eq!(
        f.blocks[0].instrs,
        vec![
            Instr::Const { value: 0 },
            Instr::Store {
                slot: 0,
                src: ValId { block: 0, instr: 0 }
            },
            Instr::Const { value: 2 },
            Instr::Store {
                slot: 1,
                src: ValId { block: 0, instr: 2 }
            },
            Instr::Const { value: 3 },
            Instr::Store {
                slot: 1,
                src: ValId { block: 0, instr: 4 }
            },
            Instr::Const { value: 4 },
            Instr::Store {
                slot: 0,
                src: ValId { block: 0, instr: 6 }
            },
        ]
    );
}

#[test]
fn lower_variable_reference_loads_its_slot() {
    let program = Program {
        functions: vec![Function {
            ret_type: Type::Int,
            exprs: vec![
                Expr::Decl {
                    ty: Type::Int,
                    name: "a".to_string(),
                    init: Some(Box::new(Expr::Int { value: 2 })),
                },
                Expr::Return {
                    expr: Box::new(Expr::Var {
                        name: "a".to_string(),
                    }),
                },
            ],
            name: "main".to_string(),
            args: vec![],
        }],
    };
    let module = generate(&program).unwrap();
    let f = &module.functions[0];
    assert_eq!(f.blocks[0].instrs[4], Instr::Load { slot: 1 });
    assert_eq!(
        f.blocks[0].instrs[5],
        Instr::Store {
            slot: 0,
            src: ValId { block: 0, instr: 4 }
        }
    );
}

#[test]
fn lower_later_declaration_shadows_earlier() {
    let program = Program {
        functions: vec![Function {
            ret_type: Type::Int,
            exprs: vec![
                Expr::Decl {
                    ty: Type::Int,
                    name: "a".to_string(),
                    init: Some(Box::new(Expr::Int { value: 1 })),
                },
                Expr::Decl {
                    ty: Type::Int,
                    name: "a".to_string(),
                    init: Some(Box::new(Expr::Int { value: 2 })),
                },
                Expr::Return {
                    expr: Box::new(Expr::Var {
                        name: "a".to_string(),
                    }),
                },
            ],
            name: "main".to_string(),
            args: vec![],
        }],
    };
    let module = generate(&program).unwrap();
    let f = &module.functions[0];
    assert_eq!(f.slots, vec![Type::Int, Type::Int, Type::Int]);
    assert_eq!(f.blocks[0].instrs[6], Instr::Load { slot: 2 });
}

#[test]
fn lower_parameters_become_slots() {
    let program = Program {
        functions: vec![Function {
            ret_type: Type::Int,
            exprs: vec![Expr::Return {
                expr: Box::new(Expr::Var {
                    name: "x".to_string(),
                }),
            }],
            name: "f".to_string(),
            args: vec![Arg {
                ty: Type::Int,
                name: "x".to_string(),
            }],
        }],
    };
    let module = generate(&program).unwrap();
    let f = &module.functions[0];
    assert_eq!(f.params.len(), 1);
    assert_eq!(f.params[0].name, "x");
    assert_eq!(f.slots, vec![Type::Int, Type::Int]);
    assert_eq!(
        f.blocks[0].instrs,
        vec![
            Instr::Const { value: 0 },
            Instr::Store {
                slot: 0,
                src: ValId { block: 0, instr: 0 }
            },
            Instr::Param { index: 0 },
            Instr::Store {
                slot: 1,
                src: ValId { block: 0, instr: 2 }
            },
            Instr::Load { slot: 1 },
            Instr::Store {
                slot: 0,
                src: ValId { block: 0, instr: 4 }
            },
        ]
    );
}

#[test]
fn conditional_lowering_reachability() {
    let program = parse("int main() { if (2 > 1) { return 0; } else { return 1; } }").unwrap();
    let module = generate(&program).unwrap();
    let f = &module.functions[0];
    assert_eq!(f.blocks.len(), 5);
    assert_eq!(
        f.blocks[0].term,
        Some(Terminator::CondBr {
            cond: ValId { block: 0, instr: 4 },
            then_target: 2,
            else_target: 3,
        })
    );
    assert_eq!(f.blocks[0].instrs[4], Instr::BinOp {
        op: Op::Gt,
        lhs: ValId { block: 0, instr: 2 },
        rhs: ValId { block: 0, instr: 3 },
    });
    // The then block stores into the shared return slot and branches to the
    // shared return block, not the merge block; likewise the else block.
    assert_eq!(
        f.blocks[2].instrs,
        vec![
            Instr::Const { value: 0 },
            Instr::Store {
                slot: 0,
                src: ValId { block: 2, instr: 0 }
            },
        ]
    );
    assert_eq!(f.blocks[2].term, Some(Terminator::Br { target: 1 }));
    assert_eq!(
        f.blocks[3].instrs,
        vec![
            Instr::Const { value: 1 },
            Instr::Store {
                slot: 0,
                src: ValId { block: 3, instr: 0 }
            },
        ]
    );
    assert_eq!(f.blocks[3].term, Some(Terminator::Br { target: 1 }));
    // The merge block (block 4) is unreachable: no terminator targets it.
    for b in &f.blocks {
        match b.term {
            Some(Terminator::Br { target }) => assert_ne!(target, 4),
            Some(Terminator::CondBr {
                then_target,
                else_target,
                ..
            }) => {
                assert_ne!(then_target, 4);
                assert_ne!(else_target, 4);
            }
            _ => {}
        }
    }
}

#[test]
fn statements_after_return_in_branch_are_dropped() {
    let program = parse("int main() { if (1) { return 2; 3; } else { 4; } return 5; }").unwrap();
    let module = generate(&program).unwrap();
    let f = &module.functions[0];
    // The then block holds only the return's store: the statement after the
    // return was never emitted.
    assert_eq!(
        f.blocks[2].instrs,
        vec![
            Instr::Const { value: 2 },
            Instr::Store {
                slot: 0,
                src: ValId { block: 2, instr: 0 }
            },
        ]
    );
    assert_eq!(f.blocks[2].term, Some(Terminator::Br { target: 1 }));
    // The else block did not return, so it branches to the merge block.
    assert_eq!(f.blocks[3].term, Some(Terminator::Br { target: 4 }));
    // Lowering continues in the merge block after the conditional.
    assert_eq!(
        f.blocks[4].instrs,
        vec![
            Instr::Const { value: 5 },
            Instr::Store {
                slot: 0,
                src: ValId { block: 4, instr: 0 }
            },
        ]
    );
}

#[test]
fn undeclared_assignment_fails_lowering() {
    let program = Program {
        functions: vec![Function {
            ret_type: Type::Int,
            exprs: vec![Expr::Assign {
                name: "x".to_string(),
                rhs: Box::new(Expr::Int { value: 1 }),
            }],
            name: "main".to_string(),
            args: vec![],
        }],
    };
    assert_eq!(
        generate(&program),
        Err(LowerError::Undeclared {
            name: "x".to_string()
        })
    );
}

#[test]
fn undeclared_variable_reference_fails_lowering() {
    let program = Program {
        functions: vec![Function {
            ret_type: Type::Int,
            exprs: vec![Expr::Return {
                expr: Box::new(Expr::Var {
                    name: "y".to_string(),
                }),
            }],
            name: "main".to_string(),
            args: vec![],
        }],
    };
    assert_eq!(
        generate(&program),
        Err(LowerError::Undeclared {
            name: "y".to_string()
        })
    );
}

#[test]
fn parameter_assignment_lowers() {
    let program = parse("void f(int x) { x = 3; }").unwrap();
    let module = generate(&program).unwrap();
    let f = &module.functions[0];
    assert_eq!(
        f.blocks[0].instrs,
        vec![
            Instr::Const { value: 0 },
            Instr::Store {
                slot: 0,
                src: ValId { block: 0, instr: 0 }
            },
            Instr::Param { index: 0 },
            Instr::Store {
                slot: 1,
                src: ValId { block: 0, instr: 2 }
            },
            Instr::Const { value: 3 },
            Instr::Store {
                slot: 1,
                src: ValId { block: 0, instr: 4 }
            },
        ]
    );
}

#[test]
fn empty_program_fails_lowering() {
    let program = parse("").unwrap();
    assert_eq!(program.functions.len(), 0);
    assert_eq!(generate(&program), Err(LowerError::NoFunctions));
}

#[test]
fn statement_operand_fails_lowering() {
    let program = Program {
        functions: vec![Function {
            ret_type: Type::Int,
            exprs: vec![Expr::BinOp {
                op: Op::Add,
                lhs: Box::new(Expr::Return {
                    expr: Box::new(Expr::Int { value: 1 }),
                }),
                rhs: Box::new(Expr::Int { value: 2 }),
            }],
            name: "main".to_string(),
            args: vec![],
        }],
    };
    assert_eq!(generate(&program), Err(LowerError::VoidOperand));
}

#[test]
fn deref_lowers_to_address_load() {
    let program = Program {
        functions: vec![Function {
            ret_type: Type::Int,
            exprs: vec![Expr::Return {
                expr: Box::new(Expr::Deref {
                    addr: Box::new(Expr::Int { value: 16 }),
                }),
            }],
            name: "main".to_string(),
            args: vec![],
        }],
    };
    let module = generate(&program).unwrap();
    let f = &module.functions[0];
    assert_eq!(
        f.blocks[0].instrs,
        vec![
            Instr::Const { value: 0 },
            Instr::Store {
                slot: 0,
                src: ValId { block: 0, instr: 0 }
            },
            Instr::Const { value: 16 },
            Instr::LoadAddr {
                addr: ValId { block: 0, instr: 2 }
            },
            Instr::Store {
                slot: 0,
                src: ValId { block: 0, instr: 3 }
            },
        ]
    );
}

#[test]
fn two_functions_lower_independently() {
    // `a` is declared in the first function only; the symbol table is one
    // flat table per function, so lowering the second must fail.
    let program = Program {
        functions: vec![
            Function {
                ret_type: Type::Int,
                exprs: vec![Expr::Decl {
                    ty: Type::Int,
                    name: "a".to_string(),
                    init: Some(Box::new(Expr::Int { value: 1 })),
                }],
                name: "f".to_string(),
                args: vec![],
            },
            Function {
                ret_type: Type::Int,
                exprs: vec![Expr::Return {
                    expr: Box::new(Expr::Var {
                        name: "a".to_string(),
                    }),
                }],
                name: "g".to_string(),
                args: vec![],
            },
        ],
    };
    assert_eq!(
        generate(&program),
        Err(LowerError::Undeclared {
            name: "a".to_string()
        })
    );
}
