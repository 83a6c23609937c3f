use epilang::compiler::ast::{FunctionAST, AST};
use epilang::compiler::compiler::compile;
use epilang::compiler::context::CompilerContext;
use epilang::compiler::error::CompilerError;
use epilang::compiler::frame::GlobalContext;
use epilang::compiler::scoping::{is_pure, is_tidy};
use epilang::lexer::tokenize;
use epilang::parser::parse;
use epilang::intermediate::constant::{Constant, Type};
use epilang::intermediate::exp::{BuiltInFunction, Exp, FunctionExp};
use epilang::intermediate::opcode::BinaryOpcode;
use epilang::program::{run_tree, ProgramError};
use epilang::runtime::error::ExpressionError;
use epilang::runtime::executor::{binary_operation, call_function, evaluate, evaluate_all, subscript};
use epilang::runtime::module::{Heap, Module};
use epilang::runtime::operations::logical::string_lower;
use epilang::runtime::operations::OperationError;
use epilang::runtime::pointer::Ptr;
use epilang::runtime::text::int_to_string;
use epilang::runtime::value::{Value, V};

fn num(i: i32) -> AST {
    AST::Constant(Constant::Int(i))
}

fn var(name: &str) -> AST {
    AST::Identifier(name.to_string())
}

fn then(a: AST, b: AST) -> AST {
    AST::Concatenation { left: Box::new(a), right: Box::new(b) }
}

fn declare(name: &str, value: AST) -> AST {
    AST::Assignment(Box::new(AST::Definition(name.to_string())), Box::new(value))
}

#[test]
fn tidy_program_finds_every_slot() {
    // let a = 1; { let b = 2; a + b }; let c = a; c
    let ast = then(
        declare("a", num(1)),
        then(
            AST::Block(Box::new(then(
                declare("b", num(2)),
                AST::BinaryOp(Box::new(var("a")), BinaryOpcode::Add, Box::new(var("b"))),
            ))),
            then(declare("c", var("a")), var("c")),
        ),
    );
    let mut ctx = CompilerContext::new();
    let mut module = Module::new();
    let v = run_tree(&ast, &mut ctx, &mut module, 100).expect("the program runs");
    assert!(matches!(v.as_ref(&module.heap), Value::Int(1)));
    assert_eq!(module.variables.len(), 5);
    assert_eq!(ctx.variable_scope("a"), Some(3));
    assert_eq!(ctx.variable_scope("c"), Some(4));
    assert_eq!(ctx.variable_scope("b"), None);
}

#[test]
fn declaration_in_an_operand_that_is_skipped_leaves_its_slot_missing() {
    // false && (let x = 1); x
    let ast = then(
        AST::BinaryOp(
            Box::new(AST::Constant(Constant::Bool(false))),
            BinaryOpcode::And,
            Box::new(declare("x", num(1))),
        ),
        var("x"),
    );
    let mut ctx = CompilerContext::new();
    let mut module = Module::new();
    let result = run_tree(&ast, &mut ctx, &mut module, 100);
    assert!(matches!(
        result,
        Err(ProgramError::RuntimeError(ExpressionError::UndefinedVariable(3)))
    ));
}

#[test]
fn expression_that_reaches_beyond_its_frame_fails() {
    let mut module = Module::new();
    let read = Exp::Variable { scope: 3 };
    assert!(matches!(evaluate(&read, &mut module, 0, 10), Err(ExpressionError::UndefinedVariable(3))));
    assert!(matches!(evaluate(&read, &mut module, 7, 10), Err(ExpressionError::UndefinedVariable(3))));
    assert!(matches!(
        evaluate(&Exp::Variable { scope: usize::MAX }, &mut module, usize::MAX, 10),
        Err(ExpressionError::UndefinedVariable(usize::MAX))
    ));
    let write = Exp::Assignment {
        left: Box::new(Exp::Variable { scope: 9 }),
        right: Box::new(Exp::Constant { value: Constant::Int(1) }),
    };
    assert!(matches!(evaluate(&write, &mut module, 0, 10), Err(ExpressionError::UndefinedVariable(9))));
    let capture = Exp::Closure(Box::new(FunctionExp {
        num_args: 0,
        external_vars: vec![0, 5],
        body: Exp::Constant { value: Constant::Unit },
    }));
    assert!(matches!(evaluate(&capture, &mut module, 0, 10), Err(ExpressionError::UndefinedVariable(5))));
    let target = Exp::Assignment {
        left: Box::new(Exp::Constant { value: Constant::Int(1) }),
        right: Box::new(Exp::Constant { value: Constant::Int(2) }),
    };
    assert!(matches!(evaluate(&target, &mut module, 0, 10), Err(ExpressionError::InvalidAssignmentTarget)));
    let first = evaluate(&Exp::Variable { scope: 0 }, &mut module, 0, 10).expect("slot 0 is there");
    assert!(matches!(first.as_ref(&module.heap), Value::BuiltInFunction(BuiltInFunction::Print)));
}

#[test]
fn class_is_found_once_its_definition_has_run() {
    let mut ctx = CompilerContext::new();
    let mut module = Module::new();
    assert!(matches!(
        evaluate(&Exp::Class { id: 0 }, &mut module, 0, 10),
        Err(ExpressionError::UndefinedClass(0))
    ));
    let class = AST::Class(Box::new(epilang::compiler::ast::ClassAST {
        name: "A".to_string(),
        fields: vec![],
        constructor: None,
        methods: vec![],
    }));
    let exp = compile(&class, &mut ctx).expect("the class compiles");
    assert!(matches!(&exp, Exp::ClassDef(c) if c.id == 0 && c.constructor.num_args == 1));
    assert_eq!(module.lookup_class(0), None);
    evaluate(&exp, &mut module, 0, 10).expect("the definition runs");
    let handle = module.lookup_class(0).expect("the class is installed");
    let found = evaluate(&Exp::Class { id: 0 }, &mut module, 0, 10).expect("the class is found");
    assert!(matches!(found.as_ref(&module.heap), Value::Class(c) if *c == handle));
    evaluate(&Exp::Let { scope: 3 }, &mut module, 0, 10).expect("a declaration runs");
    assert_eq!(module.lookup_class(0), Some(handle));
    assert_eq!(ctx.class_id("A"), Some(0));
    assert_eq!(ctx.class_id("B"), None);
}

#[test]
fn named_function_captures_itself_first() {
    let f = AST::Function(Box::new(FunctionAST {
        name: "f".to_string(),
        args: vec!["n".to_string()],
        body: var("print"),
    }));
    let mut ctx = CompilerContext::new();
    let mut module = Module::new();
    let exp = compile(&f, &mut ctx).expect("the function compiles");
    match &exp {
        Exp::Function(function) => {
            assert_eq!(function.num_args, 1);
            assert_eq!(function.external_vars, vec![0]);
            assert_eq!(function.body, Exp::Variable { scope: 1 });
        }
        other => panic!("got {:?}", other),
    }
    let v = evaluate(&exp, &mut module, 0, 10).expect("the definition runs");
    let ptr = match v {
        V::Ptr(ptr) => ptr,
        V::Val(_) => panic!("a named function lives in a cell"),
    };
    assert_eq!(*module.variables.last().unwrap(), ptr);
    match module.heap.value(ptr) {
        Value::Function(function) => {
            assert_eq!(function.external_values[0], ptr);
            assert_eq!(function.external_values[1], module.variables[0]);
            assert_eq!(function.external_values.len(), 2);
        }
        other => panic!("got {:?}", other),
    }
    assert_eq!(ctx.variable_scope("f"), Some(3));
}

#[test]
fn two_functions_of_one_frame_are_both_visible() {
    let function = |name: &str| {
        AST::Function(Box::new(FunctionAST { name: name.to_string(), args: vec![], body: num(0) }))
    };
    let mut ctx = CompilerContext::new();
    compile(&then(function("f"), function("g")), &mut ctx).expect("both compile");
    assert_eq!(ctx.variable_scope("f"), Some(3));
    assert_eq!(ctx.variable_scope("g"), Some(4));
}

#[test]
fn context_resolves_names_frame_by_frame() {
    let mut ctx = CompilerContext::new();
    assert_eq!(ctx.variable_scope("print"), Some(0));
    assert_eq!(ctx.variable_scope("println"), Some(1));
    assert_eq!(ctx.variable_scope("input"), Some(2));
    assert_eq!(ctx.define_variable("x".to_string()), 3);
    assert_eq!(ctx.define_variable("x".to_string()), 4);
    assert_eq!(ctx.variable_scope("x"), Some(4));
    ctx.push_frame(false);
    assert_eq!(ctx.variable_scope("x"), Some(4));
    assert_eq!(ctx.define_variable("y".to_string()), 5);
    assert_eq!(ctx.define_class("A".to_string()), Ok(0));
    ctx.push_frame(true);
    assert_eq!(ctx.variable_scope("x"), None);
    assert_eq!(ctx.variable_scope("y"), None);
    assert_eq!(ctx.class_id("A"), Some(0));
    assert_eq!(ctx.define_variable("z".to_string()), 0);
    assert_eq!(ctx.define_class("A".to_string()), Ok(1));
    assert_eq!(ctx.class_id("A"), Some(1));
    assert_eq!(ctx.define_class("A".to_string()), Err(CompilerError::ClassNameAlreadyDeclared("A".to_string())));
    ctx.pop_frame();
    assert_eq!(ctx.class_id("A"), Some(0));
    assert_eq!(ctx.variable_scope("z"), None);
    ctx.pop_frame();
    assert_eq!(ctx.variable_scope("y"), None);
    assert_eq!(ctx.class_id("A"), None);
    assert_eq!(ctx.define_variable("w".to_string()), 5);
    ctx.pop_frame();
    assert_eq!(ctx.frames.len(), 1);
    assert_eq!(ctx.variable_scope("w"), Some(5));
}

#[test]
fn registry_numbers_classes_in_order() {
    let mut registry = GlobalContext::new();
    assert_eq!(registry.class_id(&"A".to_string()), None);
    assert_eq!(registry.define_class("A".to_string()), Ok(0));
    assert_eq!(registry.define_class("B".to_string()), Ok(1));
    assert_eq!(
        registry.define_class("A".to_string()),
        Err(CompilerError::ClassNameAlreadyDeclared("A".to_string()))
    );
    assert_eq!(registry.class_id(&"A".to_string()), Some(0));
    assert_eq!(registry.class_id(&"B".to_string()), Some(1));
    assert_eq!(registry.define_class("C".to_string()), Ok(2));
}

#[test]
fn assignment_needs_a_target() {
    let mut ctx = CompilerContext::new();
    let bad = AST::Assignment(Box::new(num(1)), Box::new(num(2)));
    assert_eq!(compile(&bad, &mut ctx), Err(CompilerError::InvalidLeftSideAssignment));
    let good = declare("x", num(2));
    assert_eq!(
        compile(&good, &mut ctx),
        Ok(Exp::Concatenation {
            first: Box::new(Exp::Let { scope: 3 }),
            second: Box::new(Exp::Assignment {
                left: Box::new(Exp::Variable { scope: 3 }),
                right: Box::new(Exp::Constant { value: Constant::Int(2) }),
            }),
        })
    );
    assert_eq!(
        compile(&var("nowhere"), &mut ctx),
        Err(CompilerError::UnknownIdentifier("nowhere".to_string()))
    );
}

#[test]
fn copy_of_an_expression_is_the_expression() {
    let mut ctx = CompilerContext::new();
    let ast = then(
        AST::Function(Box::new(FunctionAST {
            name: "f".to_string(),
            args: vec!["a".to_string()],
            body: AST::List { elements: vec![var("a"), num(1), AST::Constant(Constant::String("s".into()))] },
        })),
        AST::FunctionCall { fun: Box::new(var("f")), args: vec![num(2)] },
    );
    let exp = compile(&ast, &mut ctx).expect("the program compiles");
    assert_eq!(exp.clone(), exp);
    assert_ne!(exp.clone(), Exp::Let { scope: 0 });
}

#[test]
fn values_have_types_and_truthiness() {
    let heap = Heap::new();
    let list = Value::List(vec![Ptr::unit()]);
    assert_eq!(Value::Unit.get_type(), Type::Unit);
    assert_eq!(Value::Int(0).get_type(), Type::Int);
    assert_eq!(Value::Bool(true).get_type(), Type::Bool);
    assert_eq!(Value::String("".into()).get_type(), Type::String);
    assert_eq!(list.get_type(), Type::List);
    assert_eq!(Value::BuiltInFunction(BuiltInFunction::Input).get_type(), Type::Function);
    assert!(!Value::Unit.as_bool());
    assert!(!Value::Int(0).as_bool());
    assert!(Value::Int(-1).as_bool());
    assert!(!Value::Bool(false).as_bool());
    assert!(!Value::String("".into()).as_bool());
    assert!(Value::String(" ".into()).as_bool());
    assert!(!Value::List(vec![]).as_bool());
    assert!(list.as_bool());
    assert!(Value::BuiltInFunction(BuiltInFunction::Print).as_bool());
    assert!(matches!(Value::Int(3).not(), Value::Bool(false)));
    assert!(matches!(Value::Int(3).not().not(), Value::Bool(true)));
    assert!(matches!(Value::Unit.not().not(), Value::Bool(false)));
    assert_eq!(list.render(&heap, 5), "[unit]");
    assert_eq!(list.render(&heap, 0), "[...]");
    assert_eq!(Value::String("q".into()).to_string(&heap, 5), "\"q\"");
    assert_eq!(Type::Function.to_string(), "Function");
    assert_eq!(BuiltInFunction::Print.num_args(), 1);
    assert_eq!(BuiltInFunction::Input.num_args(), 1);
}

#[test]
fn operators_follow_their_table() {
    let heap = Heap::new();
    let int = |i: i32| Value::Int(i);
    assert!(matches!(int(2).add(&int(3), &heap, 5), Ok(Value::Int(5))));
    assert!(matches!(int(i32::MAX).add(&int(1), &heap, 5), Ok(Value::Int(i32::MIN))));
    assert!(matches!(int(2).sub(&int(3)), Ok(Value::Int(-1))));
    assert!(matches!(int(i32::MIN).sub(&int(1)), Ok(Value::Int(i32::MAX))));
    assert!(matches!(int(-4).mul(&int(3)), Ok(Value::Int(-12))));
    assert!(matches!(int(46341).mul(&int(46341)), Ok(Value::Int(-2147479015))));
    assert!(matches!(int(7).div(&int(2)), Ok(Value::Int(3))));
    assert!(matches!(int(-7).div(&int(2)), Ok(Value::Int(-3))));
    assert!(matches!(int(i32::MIN).div(&int(-1)), Ok(Value::Int(i32::MIN))));
    assert!(matches!(int(1).div(&int(0)), Err(OperationError::DivisionByZero)));
    assert!(matches!(
        Value::Unit.div(&int(0)),
        Err(OperationError::IncompatibleTypes(BinaryOpcode::Div, Type::Unit, Type::Int))
    ));
    assert!(matches!(
        int(1).add(&Value::Unit, &heap, 5),
        Err(OperationError::IncompatibleTypes(BinaryOpcode::Add, Type::Int, Type::Unit))
    ));
    assert!(matches!(
        Value::List(vec![]).add(&int(1), &heap, 5),
        Err(OperationError::IncompatibleTypes(BinaryOpcode::Add, Type::List, Type::Int))
    ));
    match Value::String("a".into()).add(&Value::Unit, &heap, 5) {
        Ok(Value::String(s)) => assert_eq!(s, "aunit"),
        other => panic!("got {:?}", other),
    }
    match Value::Bool(false).add(&Value::String("!".into()), &heap, 5) {
        Ok(Value::String(s)) => assert_eq!(s, "false!"),
        other => panic!("got {:?}", other),
    }
    assert_eq!(int(1).compare(BinaryOpcode::Lower, &int(2)), Ok(true));
    assert_eq!(int(2).compare(BinaryOpcode::LowerEquals, &int(2)), Ok(true));
    assert_eq!(int(2).compare(BinaryOpcode::Greater, &int(2)), Ok(false));
    assert_eq!(int(2).compare(BinaryOpcode::GreaterEquals, &int(3)), Ok(false));
    assert_eq!(
        int(2).compare(BinaryOpcode::Lower, &Value::Unit),
        Err(OperationError::IncompatibleTypes(BinaryOpcode::Lower, Type::Int, Type::Unit))
    );
    assert!(int(2).same_content(&int(2)));
    assert!(!int(2).same_content(&Value::Bool(true)));
    assert!(!Value::List(vec![]).same_content(&Value::List(vec![])));
    assert!(string_lower(&"".to_string(), &"a".to_string()));
    assert!(!string_lower(&"a".to_string(), &"".to_string()));
    assert!(string_lower(&"Z".to_string(), &"a".to_string()));
    assert!(string_lower(&"z".to_string(), &"é".to_string()));
    assert!(!string_lower(&"same".to_string(), &"same".to_string()));
    assert_eq!(int_to_string(0), "0");
    assert_eq!(int_to_string(-10), "-10");
    assert_eq!(int_to_string(i32::MIN), "-2147483648");
    assert_eq!(int_to_string(i32::MAX), "2147483647");
}

#[test]
fn subscript_selects_a_slot_or_says_why_not() {
    let list = Value::List(vec![Ptr::unit(), Ptr::unit()]);
    assert!(matches!(subscript(&list, &Value::Int(0)), Ok(0)));
    assert!(matches!(subscript(&list, &Value::Int(1)), Ok(1)));
    assert!(matches!(subscript(&list, &Value::Int(2)), Err(ExpressionError::ListIndexOutOfRange)));
    assert!(matches!(subscript(&list, &Value::Int(-1)), Err(ExpressionError::ListIndexOutOfRange)));
    assert!(matches!(
        subscript(&list, &Value::Bool(true)),
        Err(ExpressionError::IndexTypeError(Type::List, Type::Bool))
    ));
    assert!(matches!(
        subscript(&Value::Unit, &Value::Int(0)),
        Err(ExpressionError::NotSubscriptable(Type::Unit))
    ));
    assert!(matches!(
        subscript(&Value::Unit, &Value::Unit),
        Err(ExpressionError::IndexTypeError(Type::Unit, Type::Unit))
    ));
}

#[test]
fn module_keeps_a_stack_and_a_class_table() {
    let mut module = Module::new();
    assert_eq!(module.variables.len(), 3);
    assert!(matches!(module.heap.value(Ptr::unit()), Value::Unit));
    module.push(Ptr::unit());
    module.push(Ptr { index: 1 });
    assert_eq!(module.pop(), Some(Ptr { index: 1 }));
    module.truncate(10);
    assert_eq!(module.variables.len(), 4);
    module.truncate(1);
    assert_eq!(module.variables.len(), 1);
    module.truncate(0);
    assert_eq!(module.pop(), None);
    let fresh = Module::default();
    assert_eq!(fresh.variables, vec![Ptr { index: 1 }, Ptr { index: 2 }, Ptr { index: 3 }]);
    let p = module.heap.store(Value::Int(5));
    let q = V::Val(Value::Int(6)).into_ptr(&mut module.heap);
    assert_ne!(p, q);
    assert_eq!(V::Ptr(p).into_ptr(&mut module.heap), p);
    let list = module.heap.store(Value::List(vec![p, q]));
    module.heap.set_list_element(list, 0, q);
    assert!(matches!(module.heap.value(list), Value::List(l) if l[0] == q && l[1] == q));
    assert!(V::Ptr(p).equals(&V::Ptr(p), &module.heap));
    let copy = V::Val(module.heap.value(list).duplicate());
    assert!(!V::Ptr(list).equals(&copy, &module.heap));
}

#[test]
fn function_body_runs_in_a_frame_of_its_own() {
    let mut ctx = CompilerContext::new();
    let mut module = Module::new();
    let closure = AST::Closure {
        args: vec!["a".to_string(), "b".to_string()],
        exp: Box::new(then(
            declare("c", AST::BinaryOp(Box::new(var("a")), BinaryOpcode::Sub, Box::new(var("b")))),
            var("c"),
        )),
    };
    let exp = compile(&closure, &mut ctx).expect("the closure compiles");
    let v = evaluate(&exp, &mut module, 0, 10).expect("the closure is made");
    let function = match v {
        V::Val(Value::Function(f)) => f,
        other => panic!("got {:?}", other),
    };
    let args = evaluate_all(
        &vec![Exp::Constant { value: Constant::Int(9) }, Exp::Constant { value: Constant::Int(4) }],
        &mut module,
        0,
        10,
    )
    .expect("the arguments are values");
    let before = module.variables.len();
    let result = call_function(&function, args, &mut module, 10).expect("the body runs");
    assert!(matches!(result.as_ref(&module.heap), Value::Int(5)));
    assert_eq!(module.variables.len(), before);
    assert!(matches!(
        call_function(&function, vec![Ptr::unit()], &mut module, 10),
        Err(ExpressionError::WrongArgumentsNumber(2, 1))
    ));
    assert_eq!(module.variables.len(), before);
}

#[test]
fn function_of_lists_needs_a_list() {
    let mut module = Module::new();
    let call = Exp::FunctionCall {
        fun: Box::new(Exp::BuiltInFunction(BuiltInFunction::ListLength)),
        args: vec![Exp::Constant { value: Constant::Int(1) }],
    };
    assert!(matches!(
        evaluate(&call, &mut module, 0, 10),
        Err(ExpressionError::UnexpectedType(Type::List, Type::Int))
    ));
    let call = Exp::FunctionCall {
        fun: Box::new(Exp::BuiltInFunction(BuiltInFunction::ListLength)),
        args: vec![Exp::List { elements: vec![Exp::Constant { value: Constant::Unit }] }],
    };
    let v = evaluate(&call, &mut module, 0, 10).expect("a list has a length");
    assert!(matches!(v.as_ref(&module.heap), Value::Int(1)));
    assert_eq!(BuiltInFunction::ListLength.num_args(), 1);
    assert_eq!(BuiltInFunction::ListPush.num_args(), 2);
    assert_eq!(BuiltInFunction::ListPop.num_args(), 1);
    assert_eq!(BuiltInFunction::ListRemove.num_args(), 2);
    let e = ExpressionError::UnexpectedType(Type::List, Type::Int);
    assert_eq!(e.to_string(), "TypeError: expected List, found Int");
}

#[test]
fn tidy_trees_declare_only_where_a_statement_stands() {
    let tree = |text: &str| parse(&tokenize(text.to_string()).unwrap()).unwrap();
    for text in [
        "1 + 2",
        "let x = 1; x",
        "let x",
        "fn f(a) { let b = a; b } f(1)",
        "{ let x = 1; class A { fn m(self) { let y = 2; y } } }",
        "if true { let x = 1 } else { fn g() { } }",
        "while true { let x = 1; x }",
        "[fn() { let z = 1 }, { let w = 2 }]",
        "x = y = 3",
    ] {
        assert!(is_tidy(&tree(text)), "{}", text);
    }
    assert!(is_pure(&tree("f(1, [2], { let x = 3 })")));
    assert!(!is_pure(&tree("let x = 1")));
    assert!(!is_pure(&tree("fn f() { }")));
    assert!(!is_pure(&tree("class A { }")));
    assert!(!is_pure(&tree("1; let x")));
    let skipped = AST::BinaryOp(
        Box::new(AST::Constant(Constant::Bool(false))),
        BinaryOpcode::And,
        Box::new(declare("x", num(1))),
    );
    assert!(!is_tidy(&skipped));
    assert!(!is_tidy(&then(num(1), skipped)));
    let in_argument = AST::FunctionCall { fun: Box::new(var("f")), args: vec![AST::Definition("x".into())] };
    assert!(!is_tidy(&in_argument));
    let in_value = declare("x", declare("y", num(1)));
    assert!(!is_tidy(&in_value));
    let in_loop = AST::While { guard: Box::new(num(1)), exp: Box::new(AST::Definition("x".into())) };
    assert!(!is_tidy(&in_loop));
    let in_body = AST::Function(Box::new(FunctionAST {
        name: "f".into(),
        args: vec![],
        body: AST::UnaryOp(epilang::intermediate::opcode::UnaryOpcode::Not, Box::new(AST::Definition("x".into()))),
    }));
    assert!(!is_tidy(&in_body));
}

#[test]
fn declaration_in_an_operand_that_runs_keeps_its_slot() {
    // [let x = 5, x, let y = x, y]: no statement, yet every operand runs
    let ast = AST::List { elements: vec![declare("x", num(5)), var("x"), declare("y", var("x")), var("y")] };
    assert!(!is_tidy(&ast));
    let mut ctx = CompilerContext::new();
    let mut module = Module::new();
    let v = run_tree(&ast, &mut ctx, &mut module, 100).expect("the program runs");
    match v.as_ref(&module.heap) {
        Value::List(items) => {
            assert_eq!(items.len(), 4);
            assert!(matches!(module.heap.value(items[0]), Value::Unit));
            assert!(matches!(module.heap.value(items[1]), Value::Int(5)));
            assert!(matches!(module.heap.value(items[2]), Value::Unit));
            assert!(matches!(module.heap.value(items[3]), Value::Int(5)));
        },
        _ => panic!("a list was expected"),
    }
    assert_eq!(ctx.variable_scope("x"), Some(3));
    assert_eq!(ctx.variable_scope("y"), Some(4));
    assert_eq!(module.variables.len(), 5);
    let next = run_tree(&var("y"), &mut ctx, &mut module, 100).expect("the slot is there");
    assert!(matches!(next.as_ref(&module.heap), Value::Int(5)));

    // (let z = 1) + z fails on its operands, not on a slot
    let sum = AST::BinaryOp(Box::new(declare("z", num(1))), BinaryOpcode::Add, Box::new(var("z")));
    assert!(!is_tidy(&sum));
    let exp = compile(&sum, &mut ctx.duplicate()).expect("the sum compiles");
    assert!(matches!(&exp, Exp::BinaryOp { arg2, .. } if matches!(**arg2, Exp::Variable { scope: 5 })));
    let failed = run_tree(&sum, &mut ctx, &mut module, 100);
    assert!(matches!(failed, Err(ProgramError::RuntimeError(ExpressionError::OperationError(_)))));
    assert_eq!(ctx.variable_scope("z"), None);
    assert_eq!(module.variables.len(), 5);
}

#[test]
fn class_defined_in_an_operand_that_runs_is_installed() {
    // [class A { }, A]
    let class = AST::Class(Box::new(epilang::compiler::ast::ClassAST {
        name: "A".to_string(),
        fields: vec![],
        constructor: None,
        methods: vec![],
    }));
    let ast = AST::List { elements: vec![class, var("A")] };
    assert!(!is_tidy(&ast));
    let mut ctx = CompilerContext::new();
    let mut module = Module::new();
    let v = run_tree(&ast, &mut ctx, &mut module, 100).expect("the program runs");
    let handle = module.lookup_class(0).expect("the class is installed");
    match v.as_ref(&module.heap) {
        Value::List(items) => {
            assert_eq!(items.len(), 2);
            assert!(matches!(module.heap.value(items[0]), Value::Unit));
            assert!(matches!(module.heap.value(items[1]), Value::Class(c) if *c == handle));
        },
        _ => panic!("a list was expected"),
    }
    assert_eq!(ctx.class_id("A"), Some(0));
    let next = run_tree(&var("A"), &mut ctx, &mut module, 100).expect("the class is found");
    assert!(matches!(next.as_ref(&module.heap), Value::Class(c) if *c == handle));
}

#[test]
fn class_defined_in_an_operand_that_is_skipped_is_missing() {
    // false && (class A { }); A
    let class = AST::Class(Box::new(epilang::compiler::ast::ClassAST {
        name: "A".to_string(),
        fields: vec![],
        constructor: None,
        methods: vec![],
    }));
    let ast = then(
        AST::BinaryOp(Box::new(AST::Constant(Constant::Bool(false))), BinaryOpcode::And, Box::new(class)),
        var("A"),
    );
    assert!(!is_tidy(&ast));
    let mut ctx = CompilerContext::new();
    let mut module = Module::new();
    let result = run_tree(&ast, &mut ctx, &mut module, 100);
    assert!(matches!(result, Err(ProgramError::RuntimeError(ExpressionError::UndefinedClass(0)))));
    assert_eq!(ctx.class_id("A"), None);
    assert_eq!(ctx.class_count, 1);
}

#[test]
fn binary_operation_covers_every_operator() {
    let heap = Heap::new();
    let val = |i: i32| V::Val(Value::Int(i));
    let shown = |r: Result<V, ExpressionError>| match r {
        Ok(v) => v.as_ref(&heap).to_string(&heap, 5),
        Err(e) => e.to_string(),
    };
    assert_eq!(shown(binary_operation(BinaryOpcode::Add, &val(6), &val(3), &heap, 5)), "9");
    assert_eq!(shown(binary_operation(BinaryOpcode::Sub, &val(6), &val(3), &heap, 5)), "3");
    assert_eq!(shown(binary_operation(BinaryOpcode::Mul, &val(6), &val(3), &heap, 5)), "18");
    assert_eq!(shown(binary_operation(BinaryOpcode::Div, &val(6), &val(3), &heap, 5)), "2");
    assert_eq!(shown(binary_operation(BinaryOpcode::And, &val(6), &val(3), &heap, 5)), "3");
    assert_eq!(shown(binary_operation(BinaryOpcode::And, &val(0), &val(3), &heap, 5)), "0");
    assert_eq!(shown(binary_operation(BinaryOpcode::Or, &val(6), &val(3), &heap, 5)), "6");
    assert_eq!(shown(binary_operation(BinaryOpcode::Or, &val(0), &val(3), &heap, 5)), "3");
    assert_eq!(shown(binary_operation(BinaryOpcode::Equals, &val(6), &val(6), &heap, 5)), "true");
    assert_eq!(shown(binary_operation(BinaryOpcode::NotEquals, &val(6), &val(6), &heap, 5)), "false");
    assert_eq!(shown(binary_operation(BinaryOpcode::Greater, &val(6), &val(3), &heap, 5)), "true");
    assert_eq!(shown(binary_operation(BinaryOpcode::GreaterEquals, &val(3), &val(3), &heap, 5)), "true");
    assert_eq!(shown(binary_operation(BinaryOpcode::Lower, &val(6), &val(3), &heap, 5)), "false");
    assert_eq!(shown(binary_operation(BinaryOpcode::LowerEquals, &val(6), &val(3), &heap, 5)), "false");
    assert_eq!(
        shown(binary_operation(BinaryOpcode::Lower, &val(6), &V::Ptr(Ptr::unit()), &heap, 5)),
        "OperationError: Unsupported operand types for <: Int Unit"
    );
    assert_eq!(
        Value::Int(1).compare(BinaryOpcode::Add, &Value::Int(2)),
        Err(OperationError::IncompatibleTypes(BinaryOpcode::Add, Type::Int, Type::Int))
    );
    assert!(BinaryOpcode::Lower.is_relational());
    assert!(!BinaryOpcode::Equals.is_relational());
    assert!(!BinaryOpcode::And.is_relational());
}
