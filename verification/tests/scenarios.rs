use epilang::compiler::ast::{ClassAST, FunctionAST, AST};
use epilang::compiler::compiler::compile;
use epilang::compiler::context::CompilerContext;
use epilang::intermediate::constant::Constant;
use epilang::intermediate::opcode::BinaryOpcode;
use epilang::runtime::error::ExpressionError;
use epilang::runtime::executor::evaluate;
use epilang::runtime::module::Module;
use epilang::runtime::value::{Value, V};

fn num(i: i32) -> AST {
    AST::Constant(Constant::Int(i))
}

fn text(s: &str) -> AST {
    AST::Constant(Constant::String(s.to_string()))
}

fn var(name: &str) -> AST {
    AST::Identifier(name.to_string())
}

fn bin(a: AST, op: BinaryOpcode, b: AST) -> AST {
    AST::BinaryOp(Box::new(a), op, Box::new(b))
}

fn then(a: AST, b: AST) -> AST {
    AST::Concatenation { left: Box::new(a), right: Box::new(b) }
}

fn declare(name: &str, value: AST) -> AST {
    AST::Assignment(Box::new(AST::Definition(name.to_string())), Box::new(value))
}

fn set(target: AST, value: AST) -> AST {
    AST::Assignment(Box::new(target), Box::new(value))
}

fn block(body: AST) -> AST {
    AST::Block(Box::new(body))
}

fn call(fun: AST, args: Vec<AST>) -> AST {
    AST::FunctionCall { fun: Box::new(fun), args }
}

fn index(element: AST, i: AST) -> AST {
    AST::Subscript { element: Box::new(element), index: Box::new(i) }
}

fn property(exp: AST, name: &str) -> AST {
    AST::PropertyAccess { exp: Box::new(exp), property: name.to_string() }
}

fn run(ast: &AST) -> (Result<V, ExpressionError>, Module) {
    let mut ctx = CompilerContext::new();
    let mut module = Module::new();
    let exp = compile(ast, &mut ctx).expect("the program compiles");
    let result = evaluate(&exp, &mut module, 0, 1000);
    (result, module)
}

fn expect_int(ast: &AST, expected: i32) {
    let (result, module) = run(ast);
    let v = result.expect("the program runs");
    match v.as_ref(&module.heap) {
        Value::Int(i) => assert_eq!(*i, expected),
        other => panic!("expected an integer, got {:?}", other),
    }
}

#[test]
fn arithmetic_follows_the_tree() {
    // 1 + 2 * 3 - 4
    let ast = bin(
        bin(num(1), BinaryOpcode::Add, bin(num(2), BinaryOpcode::Mul, num(3))),
        BinaryOpcode::Sub,
        num(4),
    );
    expect_int(&ast, 3);
}

#[test]
fn while_loop_sums_down_from_ten() {
    // let x = 10; let y = 0; while x > 0 { y = y + x; x = x - 1 }; y
    let body = block(then(
        set(var("y"), bin(var("y"), BinaryOpcode::Add, var("x"))),
        set(var("x"), bin(var("x"), BinaryOpcode::Sub, num(1))),
    ));
    let ast = then(
        declare("x", num(10)),
        then(
            declare("y", num(0)),
            then(
                AST::While {
                    guard: Box::new(bin(var("x"), BinaryOpcode::Greater, num(0))),
                    exp: Box::new(body),
                },
                var("y"),
            ),
        ),
    );
    expect_int(&ast, 55);
}

#[test]
fn named_function_calls_itself() {
    // let f = fn(n) { if n <= 1 { 1 } else { n * f(n-1) } }; f(5)
    let body = AST::Condition {
        exp: Box::new(bin(var("n"), BinaryOpcode::LowerEquals, num(1))),
        then_block: Box::new(num(1)),
        else_block: Box::new(bin(
            var("n"),
            BinaryOpcode::Mul,
            call(var("f"), vec![bin(var("n"), BinaryOpcode::Sub, num(1))]),
        )),
    };
    let f = AST::Function(Box::new(FunctionAST {
        name: "f".to_string(),
        args: vec!["n".to_string()],
        body,
    }));
    let ast = then(f, call(var("f"), vec![num(5)]));
    expect_int(&ast, 120);
}

#[test]
fn closure_keeps_the_parameter_of_the_function_around_it() {
    // let mk = fn(x) { fn(y) { x + y } }; let add3 = mk(3); add3(4)
    let inner = AST::Closure {
        args: vec!["y".to_string()],
        exp: Box::new(bin(var("x"), BinaryOpcode::Add, var("y"))),
    };
    let mk = AST::Function(Box::new(FunctionAST {
        name: "mk".to_string(),
        args: vec!["x".to_string()],
        body: inner,
    }));
    let ast = then(
        mk,
        then(declare("add3", call(var("mk"), vec![num(3)])), call(var("add3"), vec![num(4)])),
    );
    expect_int(&ast, 7);
}

#[test]
fn constructor_fills_the_fields_that_a_method_reads() {
    // class Point { fn init(self, a, b) { self.x = a; self.y = b };
    //               fn sum(self) { self.x + self.y } };
    // let p = Point(2, 5); p.sum()
    let constructor = FunctionAST {
        name: "init".to_string(),
        args: vec!["a".to_string(), "b".to_string()],
        body: then(
            set(property(var("self"), "x"), var("a")),
            set(property(var("self"), "y"), var("b")),
        ),
    };
    let sum = FunctionAST {
        name: "sum".to_string(),
        args: vec![],
        body: bin(property(var("self"), "x"), BinaryOpcode::Add, property(var("self"), "y")),
    };
    let class = AST::Class(Box::new(ClassAST {
        name: "Point".to_string(),
        fields: vec!["x".to_string(), "y".to_string()],
        constructor: Some(constructor),
        methods: vec![sum],
    }));
    let ast = then(
        class,
        then(
            declare("p", call(var("Point"), vec![num(2), num(5)])),
            call(property(var("p"), "sum"), vec![]),
        ),
    );
    expect_int(&ast, 7);
}

#[test]
fn list_element_is_replaced_in_place() {
    // let L = [1, 2, 3]; L[1] = 20; L[0] + L[1] + L[2]
    let ast = then(
        declare("L", AST::List { elements: vec![num(1), num(2), num(3)] }),
        then(
            set(index(var("L"), num(1)), num(20)),
            bin(
                bin(index(var("L"), num(0)), BinaryOpcode::Add, index(var("L"), num(1))),
                BinaryOpcode::Add,
                index(var("L"), num(2)),
            ),
        ),
    );
    expect_int(&ast, 24);
}

#[test]
fn string_plus_integer_is_a_string() {
    // let s = "n=" + 5; s
    let ast = then(declare("s", bin(text("n="), BinaryOpcode::Add, num(5))), var("s"));
    let (result, module) = run(&ast);
    let v = result.expect("the program runs");
    match v.as_ref(&module.heap) {
        Value::String(s) => assert_eq!(s, "n=5"),
        other => panic!("expected a string, got {:?}", other),
    }
}
