use epilang::compiler::context::CompilerContext;
use epilang::compiler::error::CompilerError;
use epilang::intermediate::constant::Type;
use epilang::intermediate::opcode::BinaryOpcode;
use epilang::program::{continue_reading, run_program, ProgramError};
use epilang::runtime::error::ExpressionError;
use epilang::runtime::module::Module;
use epilang::runtime::operations::OperationError;
use epilang::runtime::pointer::Ptr;
use epilang::runtime::value::{Value, V};

struct Session {
    ctx: CompilerContext,
    module: Module,
}

fn session() -> Session {
    Session { ctx: CompilerContext::new(), module: Module::new() }
}

fn submit(s: &mut Session, text: &str) -> Result<V, ProgramError> {
    run_program(text.to_string(), &mut s.ctx, &mut s.module, 10_000)
}

fn shown(s: &mut Session, text: &str) -> String {
    let v = submit(s, text).expect("the program runs");
    v.as_ref(&s.module.heap).to_string(&s.module.heap, 100)
}

fn show(text: &str) -> String {
    let mut s = session();
    shown(&mut s, text)
}

fn runtime_error(text: &str) -> ExpressionError {
    let mut s = session();
    match submit(&mut s, text) {
        Err(ProgramError::RuntimeError(e)) => e,
        other => panic!("expected a runtime error, got {:?}", other),
    }
}

fn compiler_error(text: &str) -> CompilerError {
    let mut s = session();
    match submit(&mut s, text) {
        Err(ProgramError::CompilerError(e)) => e,
        other => panic!("expected a compiler error, got {:?}", other),
    }
}

fn syntax_error(text: &str) -> String {
    let mut s = session();
    match submit(&mut s, text) {
        Err(ProgramError::SyntaxError(e)) => e,
        other => panic!("expected a syntax error, got {:?}", other),
    }
}

#[test]
fn arithmetic_scenario() {
    assert_eq!(show("1 + 2 * 3 - 4"), "3");
}

#[test]
fn loop_scenario() {
    assert_eq!(show("let x = 10; let y = 0; while x > 0 { y = y + x; x = x - 1 }; y"), "55");
}

#[test]
fn recursion_scenario() {
    assert_eq!(show("let f = fn(n) { if n <= 1 { 1 } else { n * f(n-1) } }; f(5)"), "120");
}

#[test]
fn closure_scenario() {
    assert_eq!(show("let mk = fn(x) { fn(y) { x + y } }; let add3 = mk(3); add3(4)"), "7");
}

#[test]
fn class_scenario() {
    let text = "class Point { fn init(self, a, b) { self.x = a; self.y = b }; \
                fn sum(self) { self.x + self.y } }; let p = Point(2, 5); p.sum()";
    assert_eq!(show(text), "7");
}

#[test]
fn list_scenario() {
    assert_eq!(show("let L = [1, 2, 3]; L[1] = 20; L[0] + L[1] + L[2]"), "24");
}

#[test]
fn string_scenario() {
    assert_eq!(show("let s = \"n=\" + 5; s"), "\"n=5\"");
}

#[test]
fn empty_block_is_unit() {
    assert_eq!(show("{}"), "unit");
}

#[test]
fn loop_with_false_guard_skips_its_body() {
    assert_eq!(show("let x = 1; while false { x = 2 }"), "unit");
    assert_eq!(show("let x = 1; while false { x = 2 }; x"), "1");
}

#[test]
fn operands_that_are_not_needed_are_not_evaluated() {
    assert_eq!(show("let x = 1; false && { x = 2; true }; x"), "1");
    assert_eq!(show("let x = 1; true || { x = 2; true }; x"), "1");
    assert_eq!(show("let x = 1; true && { x = 2; true }; x"), "2");
    assert_eq!(show("let x = 1; false || { x = 2; true }; x"), "2");
}

#[test]
fn logical_operators_yield_their_operands() {
    assert_eq!(show("0 || 7"), "7");
    assert_eq!(show("3 && 7"), "7");
    assert_eq!(show("0 && 7"), "0");
    assert_eq!(show("\"\" || \"x\""), "\"x\"");
}

#[test]
fn double_negation_is_truthiness() {
    assert_eq!(show("!!5"), "true");
    assert_eq!(show("!!0"), "false");
    assert_eq!(show("!!\"\""), "false");
    assert_eq!(show("!![]"), "false");
    assert_eq!(show("!![0]"), "true");
    assert_eq!(show("!!unit"), "false");
    assert_eq!(show("!!fn() { 1 }"), "true");
}

#[test]
fn declared_variable_holds_its_value() {
    assert_eq!(show("let x = 2 * 21; x"), "42");
    assert_eq!(show("let x; x"), "unit");
}

fn outcome(text: &str) -> Result<String, String> {
    let mut s = session();
    match submit(&mut s, text) {
        Ok(v) => Ok(v.as_ref(&s.module.heap).to_string(&s.module.heap, 100)),
        Err(e) => Err(e.to_string()),
    }
}

#[test]
fn declared_then_read_is_worth_the_expression() {
    let expressions = [
        "1 + 2 * 3 - 4",
        "\"n=\" + 5",
        "[1, [2, 3], \"four\"]",
        "[10, 20, 30][1]",
        "[1, 2].len",
        "!0 && (3 > 2)",
        "1 / 0",
        "[1, 2][2]",
        "1 + absent",
        "true.field",
        "print",
        "if 1 < 2 { \"yes\" } else { \"no\" }",
        "if [] { 1 } else { [2][0] + 1 }",
        "{ 6 * 7 }",
        "if absent { 1 } else { 2 }",
    ];
    for e in expressions {
        let declared = format!("let x = {}; x", e);
        assert_eq!(outcome(&declared), outcome(e), "for {}", e);
    }
    assert_eq!(outcome("let x = 1 + 2 * 3 - 4; x"), Ok("3".to_string()));
    assert!(outcome("let x = 1 / 0; x").is_err());
    // an expression that names the variable reads the slot just declared
    assert_eq!(outcome("let x = x; x"), Ok("unit".to_string()));
    assert!(outcome("x").is_err());
}

#[test]
fn element_assigned_to_itself_changes_nothing() {
    assert_eq!(show("let L = [1, \"two\", [3]]; L[1] = L[1]; L"), "[1, two, [3]]");
}

#[test]
fn out_of_range_assignment_fails_and_keeps_the_list() {
    let mut s = session();
    assert_eq!(shown(&mut s, "let L = [1, 2, 3]; L"), "[1, 2, 3]");
    match submit(&mut s, "L[3] = 9") {
        Err(ProgramError::RuntimeError(ExpressionError::ListIndexOutOfRange)) => {}
        other => panic!("got {:?}", other),
    }
    match submit(&mut s, "L[-1] = 9") {
        Err(ProgramError::RuntimeError(ExpressionError::ListIndexOutOfRange)) => {}
        other => panic!("got {:?}", other),
    }
    assert_eq!(shown(&mut s, "L"), "[1, 2, 3]");
}

#[test]
fn block_and_call_leave_the_stack_as_long_as_it_was() {
    let mut s = session();
    let before = s.module.variables.len();
    shown(&mut s, "{ let a = 1; let b = 2; a + b }");
    assert_eq!(s.module.variables.len(), before);
    assert!(submit(&mut s, "{ let a = 1; a() }").is_err());
    assert_eq!(s.module.variables.len(), before);
    shown(&mut s, "let f = fn(n) { let m = n; m }");
    let with_f = s.module.variables.len();
    assert_eq!(with_f, before + 1);
    assert_eq!(shown(&mut s, "f(3)"), "3");
    assert_eq!(s.module.variables.len(), with_f);
    assert!(submit(&mut s, "f(1, 2)").is_err());
    assert_eq!(s.module.variables.len(), with_f);
}

#[test]
fn unit_cell_is_shared_and_never_written() {
    let mut s = session();
    shown(&mut s, "let a; let b; let c = [a, b]; c[0] = 1; a");
    let len = s.module.variables.len();
    assert!(s.module.variables[len - 3].is_unit());
    assert!(s.module.variables[len - 2].is_unit());
    assert!(matches!(s.module.heap.value(Ptr::unit()), Value::Unit));
    assert_eq!(shown(&mut s, "b"), "unit");
}

#[test]
fn property_of_a_value_that_is_no_object_fails() {
    assert!(matches!(runtime_error("let x = 5; x.size"), ExpressionError::NoSuchFieldOrMethod(n) if n == "size"));
    assert!(matches!(runtime_error("[1].size"), ExpressionError::NoSuchFieldOrMethod(n) if n == "size"));
    assert!(matches!(runtime_error("\"text\".len"), ExpressionError::NoSuchFieldOrMethod(n) if n == "len"));
    assert_eq!(show("[1].len"), "[Method]");
}

#[test]
fn class_declared_twice_in_a_frame_is_refused() {
    assert!(matches!(
        compiler_error("class A { } class A { }"),
        CompilerError::ClassNameAlreadyDeclared(n) if n == "A"
    ));
    assert_eq!(show("class A { } { class A { fn one(self) { 1 } } A().one() }"), "1");
}

#[test]
fn functions_of_one_frame_see_those_declared_before_them() {
    let text = "fn even(n) { if n == 0 { true } else { !even(n - 1) } } \
                fn twice(n) { if even(n) { n } else { n * 2 } } twice(3) + twice(4)";
    assert_eq!(show(text), "10");
}

#[test]
fn variables_last_from_one_program_to_the_next() {
    let mut s = session();
    shown(&mut s, "let total = 0; let add = fn(n) { n + 1 }");
    assert_eq!(shown(&mut s, "total = add(add(total)); total"), "2");
    assert_eq!(shown(&mut s, "let more = total + 40; more"), "42");
}

#[test]
fn closure_captures_what_a_variable_holds_then() {
    assert_eq!(show("let a = 1; let f = fn() { a }; a = 2; f()"), "1");
    assert_eq!(show("let L = [1]; let f = fn() { L[0] }; L[0] = 5; f()"), "5");
}

#[test]
fn objects_are_shared_through_pointers() {
    let text = "class Box { fn init(self, v) { self.v = v } fn get(self) { self.v } \
                fn put(self, v) { self.v = v } } \
                let a = Box(1); let b = a; b.put(7); a.get()";
    assert_eq!(show(text), "7");
    assert_eq!(show("class Box { fn init(self, v) { self.v = v } } let a = Box(3); a.v = a.v + 1; a.v"), "4");
    assert_eq!(show("class Empty { } Empty()"), "[Empty object]");
}

#[test]
fn values_are_shown_as_text() {
    assert_eq!(show("[1, \"a\", true, unit, [2]]"), "[1, a, true, unit, [2]]");
    assert_eq!(show("\"a\" + [1, 2]"), "\"a[1, 2]\"");
    assert_eq!(show("7 + \"!\""), "\"7!\"");
    assert_eq!(show("true + \"!\""), "\"true!\"");
    assert_eq!(show("fn(x) { x }"), "[Function]");
    assert_eq!(show("class A { } A"), "[Class A]");
    assert_eq!(show("class A { fn m(self) { 1 } } A().m"), "[Method]");
    assert_eq!(show("print"), "[Function]");
    assert_eq!(show("[1] + [2, 3]"), "[1, 2, 3]");
    assert_eq!(show("-2147483648"), "-2147483648");
    assert_eq!(show("let L = [0]; L[0] = L; L"), "[[[...]]]".replace("[[[...]]]", &nested(100)));
}

fn nested(depth: usize) -> String {
    let mut text = String::from("[...]");
    for _ in 0..depth {
        text = format!("[{}]", text);
    }
    text
}

#[test]
fn integers_wrap_around() {
    assert_eq!(show("2147483647 + 1"), "-2147483648");
    assert_eq!(show("-2147483648 - 1"), "2147483647");
    assert_eq!(show("65536 * 65536"), "0");
    assert_eq!(show("-2147483648 / -1"), "-2147483648");
    assert_eq!(show("-7 / 2"), "-3");
    assert_eq!(show("7 / -2"), "-3");
    assert_eq!(show("-7 / -2"), "3");
}

#[test]
fn comparisons_order_integers_and_strings() {
    assert_eq!(show("3 <= 3"), "true");
    assert_eq!(show("3 >= 4"), "false");
    assert_eq!(show("\"abc\" < \"abd\""), "true");
    assert_eq!(show("\"abc\" < \"ab\""), "false");
    assert_eq!(show("\"ab\" < \"abc\""), "true");
    assert_eq!(show("\"b\" >= \"a\""), "true");
    assert_eq!(show("\"a\" <= \"a\""), "true");
    assert_eq!(show("\"a\" > \"a\""), "false");
}

#[test]
fn equality_compares_contents_or_cells() {
    assert_eq!(show("\"a\" == \"a\""), "true");
    assert_eq!(show("unit == unit"), "true");
    assert_eq!(show("1 == \"1\""), "false");
    assert_eq!(show("[1] == [1]"), "false");
    assert_eq!(show("let L = [1]; L == L"), "true");
    assert_eq!(show("let L = [1]; let M = L; L == M"), "true");
    assert_eq!(show("let L = [1]; L != [1]"), "true");
}

#[test]
fn built_in_functions_write_and_read_lines() {
    let mut s = session();
    s.module.input.push("first line".to_string());
    assert_eq!(shown(&mut s, "print(1); println(\"two\"); print([3])"), "unit");
    assert_eq!(s.module.output, "1two\n[3]");
    assert_eq!(shown(&mut s, "input(\"? \")"), "\"first line\"");
    assert_eq!(s.module.output, "1two\n[3]? ");
    assert_eq!(shown(&mut s, "input(\"again \")"), "\"\"");
    assert!(matches!(
        submit(&mut s, "print(1, 2)"),
        Err(ProgramError::RuntimeError(ExpressionError::WrongArgumentsNumber(1, 2)))
    ));
    assert_eq!(shown(&mut s, "let say = fn(x) { println(x) }; say(\"hi\")"), "unit");
    assert!(s.module.output.ends_with("hi\n"));
}

#[test]
fn each_runtime_error_has_its_cause() {
    assert!(matches!(
        runtime_error("1 + true"),
        ExpressionError::OperationError(OperationError::IncompatibleTypes(
            BinaryOpcode::Add,
            Type::Int,
            Type::Bool
        ))
    ));
    assert!(matches!(
        runtime_error("\"a\" - 1"),
        ExpressionError::OperationError(OperationError::IncompatibleTypes(
            BinaryOpcode::Sub,
            Type::String,
            Type::Int
        ))
    ));
    assert!(matches!(
        runtime_error("[1] * 2"),
        ExpressionError::OperationError(OperationError::IncompatibleTypes(
            BinaryOpcode::Mul,
            Type::List,
            Type::Int
        ))
    ));
    assert!(matches!(
        runtime_error("true < false"),
        ExpressionError::OperationError(OperationError::IncompatibleTypes(
            BinaryOpcode::Lower,
            Type::Bool,
            Type::Bool
        ))
    ));
    assert!(matches!(
        runtime_error("1 / 0"),
        ExpressionError::OperationError(OperationError::DivisionByZero)
    ));
    assert!(matches!(runtime_error("[1, 2][2]"), ExpressionError::ListIndexOutOfRange));
    assert!(matches!(runtime_error("5(1)"), ExpressionError::ValueNotCallable(Type::Int)));
    assert!(matches!(runtime_error("\"f\"()"), ExpressionError::ValueNotCallable(Type::String)));
    assert!(matches!(
        runtime_error("let f = fn(a, b) { a }; f(1)"),
        ExpressionError::WrongArgumentsNumber(2, 1)
    ));
    assert!(matches!(
        runtime_error("class A { fn m(self, a) { a } } A().m()"),
        ExpressionError::WrongArgumentsNumber(2, 1)
    ));
    assert!(matches!(
        runtime_error("class A { } A(1)"),
        ExpressionError::WrongArgumentsNumber(1, 2)
    ));
    assert!(matches!(runtime_error("let x = 5; x[0]"), ExpressionError::NotSubscriptable(Type::Int)));
    assert!(matches!(
        runtime_error("[1][\"a\"]"),
        ExpressionError::IndexTypeError(Type::List, Type::String)
    ));
    assert!(matches!(
        runtime_error("5[\"a\"]"),
        ExpressionError::IndexTypeError(Type::Int, Type::String)
    ));
    assert!(matches!(
        runtime_error("class A { } A().missing"),
        ExpressionError::NoSuchFieldOrMethod(n) if n == "missing"
    ));
    assert!(matches!(
        runtime_error("class A { } let a = A(); a.missing = 1"),
        ExpressionError::NoSuchField(n) if n == "missing"
    ));
    assert!(matches!(
        runtime_error("let x = 1; x.field = 1"),
        ExpressionError::NoSuchField(n) if n == "field"
    ));
}

#[test]
fn fuel_bounds_calls_and_loops() {
    assert!(matches!(runtime_error("while true { }"), ExpressionError::OutOfFuel));
    let mut s = session();
    let endless = run_program("let f = fn(n) { f(n + 1) }; f(0)".to_string(), &mut s.ctx, &mut s.module, 50);
    assert!(matches!(endless, Err(ProgramError::RuntimeError(ExpressionError::OutOfFuel))));
    let mut s = session();
    let counted = run_program("let i = 0; while i < 3 { i = i + 1 }; i".to_string(), &mut s.ctx, &mut s.module, 3);
    let v = counted.expect("three rounds fit");
    assert!(matches!(v.as_ref(&s.module.heap), Value::Int(3)));
    let mut s = session();
    let short = run_program("let i = 0; while i < 3 { i = i + 1 }; i".to_string(), &mut s.ctx, &mut s.module, 2);
    assert!(matches!(short, Err(ProgramError::RuntimeError(ExpressionError::OutOfFuel))));
    let mut s = session();
    let no_call = run_program("let f = fn() { 1 }; f()".to_string(), &mut s.ctx, &mut s.module, 0);
    assert!(matches!(no_call, Err(ProgramError::RuntimeError(ExpressionError::OutOfFuel))));
}

#[test]
fn each_compiler_error_has_its_cause() {
    assert!(matches!(compiler_error("y + 1"), CompilerError::UnknownIdentifier(n) if n == "y"));
    assert!(matches!(compiler_error("1 = 2"), CompilerError::InvalidLeftSideAssignment));
    assert!(matches!(compiler_error("f() = 2"), CompilerError::UnknownIdentifier(n) if n == "f"));
    assert!(matches!(compiler_error("print() = 2"), CompilerError::InvalidLeftSideAssignment));
    assert!(matches!(
        compiler_error("{ let inner = 1 }; inner"),
        CompilerError::UnknownIdentifier(n) if n == "inner"
    ));
    assert!(matches!(
        compiler_error("class A { fn m(self) { outer } }"),
        CompilerError::UnknownIdentifier(n) if n == "outer"
    ));
}

#[test]
fn text_that_is_no_program_is_a_syntax_error() {
    assert_eq!(syntax_error("1 +"), "Unexpected token");
    assert_eq!(syntax_error("(1"), "Expected `)`");
    assert_eq!(syntax_error("[1 2]"), "Expected `,`");
    assert_eq!(syntax_error("{ 1"), "Expected `}`");
    assert_eq!(syntax_error("1 2"), "Expected `;`");
    assert_eq!(syntax_error("let 5"), "Expected a name after `let`");
    assert_eq!(syntax_error("\"open"), "Unclosed string");
    assert_eq!(syntax_error("/* open"), "Unclosed comment");
    assert_eq!(syntax_error("1 & 2"), "Unexpected character `&`");
    assert_eq!(syntax_error("1 | 2"), "Unexpected character `|`");
    assert_eq!(syntax_error("1 # 2"), "Unexpected character");
    assert_eq!(syntax_error("2147483648"), "Integer out of range");
    assert_eq!(syntax_error("x = -2147483649"), "Integer out of range");
    assert_eq!(syntax_error("a.1"), "Expected a name after `.`");
    assert_eq!(syntax_error("if x 1"), "Expected `{`");
    assert_eq!(syntax_error("fn f(a b) { }"), "Expected `,` or `)`");
    assert_eq!(syntax_error("fn f(1) { }"), "Expected a parameter");
    assert_eq!(syntax_error("class { }"), "Expected a name after `class`");
    assert_eq!(syntax_error("class A { let x }"), "Expected `fn` or `}`");
    assert_eq!(syntax_error("a[1"), "Expected `]`");
}

#[test]
fn errors_are_reported_in_words() {
    let mut s = session();
    let text = |r: Result<V, ProgramError>| r.err().expect("an error").to_string();
    assert_eq!(text(submit(&mut s, "1 +")), "SyntaxError: Unexpected token");
    assert_eq!(text(submit(&mut s, "nothing")), "CompilerError: Unknown identifier 'nothing'");
    assert_eq!(text(submit(&mut s, "1 = 1")), "CompilerError: Invalid left expression");
    assert_eq!(
        text(submit(&mut s, "class A { } class A { }")),
        "CompilerError: Class A is already declared in this module"
    );
    assert_eq!(
        text(submit(&mut s, "1 + true")),
        "OperationError: Unsupported operand types for +: Int Bool"
    );
    assert_eq!(text(submit(&mut s, "1 / 0")), "OperationError: Division by zero");
    assert_eq!(text(submit(&mut s, "[][0]")), "RuntimeError: list index out of range");
    assert_eq!(text(submit(&mut s, "unit()")), "TypeError: Unit is not callable");
    assert_eq!(
        text(submit(&mut s, "print(1, 2, 3)")),
        "TypeError: function requires 1 positional argument(s) but 3 was given"
    );
    assert_eq!(text(submit(&mut s, "true[0]")), "TypeError: Bool is not subscriptable");
    assert_eq!(
        text(submit(&mut s, "[1][true]")),
        "TypeError: List indices must be integers, not Bool"
    );
    assert_eq!(text(submit(&mut s, "1 .x")), "TypeError: no such field or method x");
    assert_eq!(text(submit(&mut s, "let one = 1; one.x = 2")), "TypeError: no such field x");
    assert_eq!(text(submit(&mut s, "while true { }")), "RuntimeError: out of fuel");
}

#[test]
fn prompt_goes_on_reading_while_the_text_is_open() {
    assert!(continue_reading("fn f() {"));
    assert!(continue_reading("f(1,"));
    assert!(continue_reading("[1, 2"));
    assert!(continue_reading("object.  \n"));
    assert!(!continue_reading("f(1)"));
    assert!(!continue_reading("{ } }"));
    assert!(!continue_reading(""));
    assert!(!continue_reading("1. + 2"));
    assert!(continue_reading(") (("));
    assert!(continue_reading("p."));
    assert!(!continue_reading("1 + 2"));
    for space in ['\u{9}', '\u{a}', '\u{b}', '\u{c}', '\u{d}', ' ', '\u{85}', '\u{a0}', '\u{1680}',
        '\u{2000}', '\u{2005}', '\u{200a}', '\u{2028}', '\u{2029}', '\u{202f}', '\u{205f}', '\u{3000}']
    {
        let text = format!("p.{}{}", space, space);
        assert!(continue_reading(&text), "{:?}", text);
        assert_eq!(continue_reading(&text), text.trim_end().ends_with('.'));
    }
    for other in ['\u{8}', '\u{e}', '\u{1f}', '\u{200b}', '\u{feff}', '\u{180e}', '\u{2060}', 'x'] {
        let text = format!("p.{}", other);
        assert!(!continue_reading(&text), "{:?}", text);
        assert_eq!(continue_reading(&text), text.trim_end().ends_with('.'));
    }
}

#[test]
fn comments_and_line_breaks_are_skipped() {
    assert_eq!(show("1 + // one\n 2 /* two */ + 3"), "6");
    assert_eq!(show("let s = \"a\\nb\\\"c\\d\"; s"), "\"a\nb\"c\\d\"");
    assert_eq!(show("let x = 4; x -1"), "3");
    assert_eq!(show("let x = 4; x - -1"), "5");
}

#[test]
fn conditionals_choose_a_branch() {
    assert_eq!(show("if 1 { \"yes\" } else { \"no\" }"), "\"yes\"");
    assert_eq!(show("if \"\" { \"yes\" } else { \"no\" }"), "\"no\"");
    assert_eq!(show("if false { 1 }"), "unit");
    assert_eq!(show("let n = 2; if n == 1 { \"one\" } else if n == 2 { \"two\" } else { \"many\" }"), "\"two\"");
    assert_eq!(show("let x = 1; if true { let x = 2; x } else { 0 }; x"), "1");
}

#[test]
fn lists_have_methods() {
    assert_eq!(show("[].len()"), "0");
    assert_eq!(show("[1, 2, 3].len()"), "3");
    assert_eq!(show("let L = [1]; L.push(2); L.push(L.len()); L"), "[1, 2, 2]");
    assert_eq!(show("let L = [1]; L.push(2)"), "unit");
    assert_eq!(show("let L = [1, 2, 3]; let last = L.pop(); [last, L]"), "[3, [1, 2]]");
    assert_eq!(show("let L = [1, 2, 3]; let x = L.remove(1); [x, L]"), "[2, [1, 3]]");
    assert_eq!(show("let L = [1, 2, 3]; L.remove(0); L.remove(1); L"), "[2]");
    assert_eq!(show("let L = [1]; let M = L; M.push(2); L"), "[1, 2]");
    assert_eq!(show("let L = [1]; let add = L.push; add(5); add(6); L"), "[1, 5, 6]");
    assert_eq!(show("let L = []; let i = 0; while i < 4 { L.push(i * i); i = i + 1 }; L"), "[0, 1, 4, 9]");
    assert!(matches!(runtime_error("[].pop()"), ExpressionError::ListIndexOutOfRange));
    assert!(matches!(runtime_error("[1].remove(1)"), ExpressionError::ListIndexOutOfRange));
    assert!(matches!(runtime_error("[1].remove(-1)"), ExpressionError::ListIndexOutOfRange));
    assert!(matches!(
        runtime_error("[1].remove(\"0\")"),
        ExpressionError::IndexTypeError(Type::List, Type::String)
    ));
    assert!(matches!(runtime_error("[1].push()"), ExpressionError::WrongArgumentsNumber(2, 1)));
    assert!(matches!(runtime_error("[1].len(1)"), ExpressionError::WrongArgumentsNumber(1, 2)));
    assert!(matches!(runtime_error("[1].pop(1, 2)"), ExpressionError::WrongArgumentsNumber(1, 3)));
}

#[test]
fn program_that_fails_declares_nothing() {
    let mut s = session();
    let before = s.module.variables.len();
    assert!(matches!(
        submit(&mut s, "let x = 1; y"),
        Err(ProgramError::CompilerError(CompilerError::UnknownIdentifier(n))) if n == "y"
    ));
    assert_eq!(s.module.variables.len(), before);
    assert!(matches!(
        submit(&mut s, "x"),
        Err(ProgramError::CompilerError(CompilerError::UnknownIdentifier(n))) if n == "x"
    ));
    assert!(matches!(
        submit(&mut s, "let a = [1]; class C { } a.push(2); 1 / 0"),
        Err(ProgramError::RuntimeError(ExpressionError::OperationError(OperationError::DivisionByZero)))
    ));
    assert_eq!(s.module.variables.len(), before);
    assert!(matches!(
        submit(&mut s, "a"),
        Err(ProgramError::CompilerError(CompilerError::UnknownIdentifier(n))) if n == "a"
    ));
    assert!(matches!(
        submit(&mut s, "C"),
        Err(ProgramError::CompilerError(CompilerError::UnknownIdentifier(n))) if n == "C"
    ));
    assert!(submit(&mut s, "let q = 1 +").is_err());
    assert_eq!(s.ctx.class_count, 1);
    assert_eq!(shown(&mut s, "let b = 2; class C { fn two(self) { 2 } } b + C().two()"), "4");
    assert_eq!(s.ctx.class_count, 2);
    assert_eq!(s.module.variables.len(), before + 1);
    assert_eq!(shown(&mut s, "b"), "2");
}

#[test]
fn class_of_a_program_that_failed_keeps_its_number() {
    let mut s = session();
    shown(&mut s, "let kept = []");
    assert!(submit(&mut s, "class A { fn name(self) { \"A\" } } kept.push(fn() { A() }); 1 / 0").is_err());
    shown(&mut s, "class B { fn name(self) { \"B\" } }");
    assert_eq!(shown(&mut s, "kept[0]().name()"), "\"A\"");
    assert_eq!(shown(&mut s, "B().name()"), "\"B\"");
}
