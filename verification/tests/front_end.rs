use epilang::compiler::ast::AST;
use epilang::intermediate::constant::Constant;
use epilang::intermediate::opcode::{BinaryOpcode, UnaryOpcode};
use epilang::lexer::{tokenize, LexicalError};
use epilang::parser::{parse, SyntaxError};
use epilang::token::{Operand, Operator, Token};

/// The tokens as `tokenize` gives them: the last token of the text first.
fn given(text: &str) -> Vec<Token> {
    tokenize(text.to_string()).expect("the text has tokens")
}

/// The tokens in the order of the text.
fn tokens(text: &str) -> Vec<Token> {
    let mut tokens = given(text);
    tokens.reverse();
    tokens
}

fn tree(text: &str) -> AST {
    parse(&given(text)).expect("the text is a program")
}

fn name(s: &str) -> Token {
    Token::Operand(Operand::Var(s.to_string()))
}

fn number(i: i32) -> Token {
    Token::Operand(Operand::Int(i))
}

/// The tree with every operation in brackets.
fn written(ast: &AST) -> String {
    match ast {
        AST::Constant(Constant::Unit) => "unit".to_string(),
        AST::Constant(Constant::Int(i)) => i.to_string(),
        AST::Constant(Constant::Bool(b)) => b.to_string(),
        AST::Constant(Constant::String(s)) => format!("{:?}", s),
        AST::Identifier(id) => id.clone(),
        AST::Concatenation { left, right } => format!("({}; {})", written(left), written(right)),
        AST::BinaryOp(a, op, b) => format!("({} {} {})", written(a), op.to_string(), written(b)),
        AST::UnaryOp(op, a) => format!("({}{})", op.to_string(), written(a)),
        AST::Definition(var) => format!("(let {})", var),
        AST::Assignment(var, e) => format!("({} = {})", written(var), written(e)),
        AST::Block(e) => format!("({{{}}})", written(e)),
        AST::Condition { exp, then_block, else_block } => {
            format!("(if {} {{{}}} else {{{}}})", written(exp), written(then_block), written(else_block))
        }
        AST::While { guard, exp } => format!("(while {} {})", written(guard), written(exp)),
        AST::List { elements } => {
            format!("[{}]", elements.iter().map(written).collect::<Vec<String>>().join(", "))
        }
        AST::Subscript { element, index } => format!("{}[{}]", written(element), written(index)),
        AST::Function(f) => format!("(fn {}({}) {{{}}})", f.name, f.args.join(", "), written(&f.body)),
        AST::Closure { args, exp } => format!("(fn({}) {{{}}})", args.join(", "), written(exp)),
        AST::FunctionCall { fun, args } => {
            format!("{}({})", written(fun), args.iter().map(written).collect::<Vec<String>>().join(", "))
        }
        AST::Class(c) => format!(
            "(class {} [{}] init: {} methods: [{}])",
            c.name,
            c.fields.join(", "),
            match &c.constructor {
                Some(f) => format!("({}) {{{}}}", f.args.join(", "), written(&f.body)),
                None => "none".to_string(),
            },
            c.methods
                .iter()
                .map(|m| format!("{}({}) {{{}}}", m.name, m.args.join(", "), written(&m.body)))
                .collect::<Vec<String>>()
                .join(", ")
        ),
        AST::PropertyAccess { exp, property } => format!("{}.{}", written(exp), property),
    }
}

fn shape(text: &str) -> String {
    written(&tree(text))
}

#[test]
fn test_expression_parser() {
    assert_eq!(shape("1 + 2 * 3 - 4"), "((1 + (2 * 3)) - 4)");
    assert_eq!(shape("(1 + 2) * (3 - 4)"), "((1 + 2) * (3 - 4))");
    assert_eq!(shape("true || false"), "(true || false)");
    assert_eq!(
        shape("2 > 3 && 3 >= 4 || 5 < 6 && 7 <= 8 || 9 == 10 && a != !b"),
        "((((2 > 3) && (3 >= 4)) || ((5 < 6) && (7 <= 8))) || ((9 == 10) && (a != (!b))))"
    );
    assert_eq!(
        shape("5 + 5 >= 100 * 12 + 3 - 1 || abc != xyz"),
        "(((5 + 5) >= (((100 * 12) + 3) - 1)) || (abc != xyz))"
    );
}

#[test]
fn tokens_come_last_first() {
    assert_eq!(
        given("1 + 2"),
        vec![number(2), Token::Operator(Operator::Sum), number(1)]
    );
    assert_eq!(
        given("let x = f(1) ;"),
        vec![
            Token::Operator(Operator::Semicolon),
            Token::RoundBracketClosed,
            number(1),
            Token::FunctionCallOpen,
            name("f"),
            Token::Operator(Operator::Assign),
            name("x"),
            Token::Let,
        ]
    );
    let mut tokens = given("a b c");
    assert_eq!(tokens.pop(), Some(name("a")));
    assert_eq!(tokens.pop(), Some(name("b")));
    assert_eq!(tokens.pop(), Some(name("c")));
    assert_eq!(tokens.pop(), None);
    assert_eq!(given(""), vec![]);
    assert_eq!(given("  \n\t "), vec![]);
}

#[test]
fn brackets_after_something_callable_are_told_apart() {
    assert_eq!(tokens("(a)")[0], Token::RoundBracketOpen);
    assert_eq!(tokens("a(b)")[1], Token::FunctionCallOpen);
    assert_eq!(tokens("a (b)")[1], Token::FunctionCallOpen);
    assert_eq!(tokens("a)(b)")[2], Token::FunctionCallOpen);
    assert_eq!(tokens("a](b)")[2], Token::FunctionCallOpen);
    assert_eq!(tokens("+(b)")[1], Token::RoundBracketOpen);
    assert_eq!(tokens("[a]")[0], Token::SquareBracketOpen);
    assert_eq!(tokens("a[0]")[1], Token::ListSelectionOpen);
    assert_eq!(tokens("{[0]")[1], Token::SquareBracketOpen);
    assert_eq!(tokens("}[0]")[1], Token::SquareBracketOpen);
    assert_eq!(tokens("if (a)")[1], Token::RoundBracketOpen);
    assert_eq!(tokens("\"s\"[0]")[1], Token::ListSelectionOpen);
}

#[test]
fn every_kind_of_token_is_read() {
    assert_eq!(
        tokens("if else let fn while class true false unit name _n1"),
        vec![
            Token::If,
            Token::Else,
            Token::Let,
            Token::Fn,
            Token::While,
            Token::Class,
            Token::Operand(Operand::Bool(true)),
            Token::Operand(Operand::Bool(false)),
            Token::Operand(Operand::Null),
            name("name"),
            name("_n1"),
        ]
    );
    assert_eq!(
        tokens("; = && || ! == != < <= > >= + - * /"),
        vec![
            Operator::Semicolon,
            Operator::Assign,
            Operator::And,
            Operator::Or,
            Operator::Not,
            Operator::Eq,
            Operator::Neq,
            Operator::Lt,
            Operator::Lte,
            Operator::Gt,
            Operator::Gte,
            Operator::Sum,
            Operator::Sub,
            Operator::Mul,
            Operator::Div,
        ]
        .into_iter()
        .map(Token::Operator)
        .collect::<Vec<Token>>()
    );
    assert_eq!(
        tokens("( ) [ ] { } , ."),
        vec![
            Token::RoundBracketOpen,
            Token::RoundBracketClosed,
            Token::ListSelectionOpen,
            Token::SquareBracketClosed,
            Token::CurlyBracketOpen,
            Token::CurlyBracketClosed,
            Token::Comma,
            Token::Dot,
        ]
    );
    assert_eq!(
        tokens("-2147483648 ; 0 007 2147483647 \"\" \"a b\" \"\\n\\\"\\x\""),
        vec![
            number(-2147483648),
            Token::Operator(Operator::Semicolon),
            number(0),
            number(7),
            number(2147483647),
            Token::Operand(Operand::Str("".to_string())),
            Token::Operand(Operand::Str("a b".to_string())),
            Token::Operand(Operand::Str("\n\"\\x".to_string())),
        ]
    );
    assert_eq!(tokens("1-2"), vec![number(1), Token::Operator(Operator::Sub), number(2)]);
    assert_eq!(tokens("(-2"), vec![Token::RoundBracketOpen, number(-2)]);
    assert_eq!(tokens("a // b\nc /* d\ne */ f"), vec![name("a"), name("c"), name("f")]);
    assert_eq!(tokens("a // no end of line"), vec![name("a")]);
}

#[test]
fn unit_has_two_names() {
    assert_eq!(tokens("null"), vec![Token::Operand(Operand::Null)]);
    assert_eq!(tokens("unit"), vec![Token::Operand(Operand::Null)]);
    assert_eq!(tokens("nullable"), vec![name("nullable")]);
}

#[test]
fn text_with_a_character_outside_the_language_has_no_tokens() {
    assert_eq!(
        tokenize("héllo".to_string()),
        Err(LexicalError { msg: "Unexpected character".to_string() })
    );
    assert_eq!(tokenize("a ? b".to_string()), Err(LexicalError { msg: "Unexpected character".to_string() }));
    assert_eq!(tokenize("\"a".to_string()), Err(LexicalError { msg: "Unclosed string".to_string() }));
    assert_eq!(tokenize("/* a *".to_string()), Err(LexicalError { msg: "Unclosed comment".to_string() }));
    assert_eq!(
        tokenize("99999999999999999999999".to_string()),
        Err(LexicalError { msg: "Integer out of range".to_string() })
    );
}

#[test]
fn token_that_can_be_called_is_a_value_or_a_closing_bracket() {
    assert!(name("f").is_callable());
    assert!(number(1).is_callable());
    assert!(Token::Operand(Operand::Null).is_callable());
    assert!(Token::RoundBracketClosed.is_callable());
    assert!(Token::SquareBracketClosed.is_callable());
    for token in [
        Token::Operator(Operator::Sum),
        Token::If,
        Token::Else,
        Token::Let,
        Token::Fn,
        Token::While,
        Token::Class,
        Token::Dot,
        Token::RoundBracketOpen,
        Token::SquareBracketOpen,
        Token::CurlyBracketOpen,
        Token::CurlyBracketClosed,
        Token::FunctionCallOpen,
        Token::ListSelectionOpen,
        Token::Comma,
    ] {
        assert!(!token.is_callable(), "{:?}", token);
    }
}

#[test]
fn operators_bind_by_their_precedence() {
    assert_eq!(Operator::Mul.precedence(), 1);
    assert_eq!(Operator::Div.precedence(), 1);
    assert_eq!(Operator::Sum.precedence(), 2);
    assert_eq!(Operator::Sub.precedence(), 2);
    assert_eq!(Operator::Not.precedence(), 4);
    assert_eq!(Operator::Lt.precedence(), 4);
    assert_eq!(Operator::Lte.precedence(), 4);
    assert_eq!(Operator::Gt.precedence(), 4);
    assert_eq!(Operator::Gte.precedence(), 4);
    assert_eq!(Operator::Eq.precedence(), 4);
    assert_eq!(Operator::Neq.precedence(), 4);
    assert_eq!(Operator::And.precedence(), 5);
    assert_eq!(Operator::Or.precedence(), 6);
    assert_eq!(Operator::Assign.precedence(), 7);
    assert_eq!(Operator::Semicolon.precedence(), 8);
    assert_eq!(Operator::Lte.to_string(), "<=");
    assert_eq!(BinaryOpcode::GreaterEquals.to_string(), ">=");
    assert_eq!(UnaryOpcode::Not.to_string(), "!");
}

#[test]
fn statements_and_blocks_are_read() {
    assert_eq!(shape(""), "unit");
    assert_eq!(shape("{}"), "({unit})");
    assert_eq!(shape("a; b; c"), "(a; (b; c))");
    assert_eq!(shape("a;"), "(a; unit)");
    assert_eq!(shape("{ a; }"), "({(a; unit)})");
    assert_eq!(shape("let x"), "(let x)");
    assert_eq!(shape("let x = 1; x"), "(((let x) = 1); x)");
    assert_eq!(shape("x = y = 2"), "(x = (y = 2))");
    assert_eq!(shape("x[0] = 1"), "(x[0] = 1)");
    assert_eq!(shape("x.a.b = 1"), "(x.a.b = 1)");
    assert_eq!(shape("{ a } b"), "(({a}); b)");
    assert_eq!(shape("while a { b } c"), "((while a ({b})); c)");
    assert_eq!(shape("if a { b } c"), "((if a {b} else {unit}); c)");
    assert_eq!(shape("if a { b } else { c }"), "(if a {b} else {c})");
    assert_eq!(shape("if a { b } else if c { d }"), "(if a {b} else {(if c {d} else {unit})})");
    assert_eq!(shape("if (a) { b } else { c }; d"), "((if a {b} else {c}); d)");
}

#[test]
fn calls_subscripts_and_properties_apply_from_the_left() {
    assert_eq!(shape("f()"), "f()");
    assert_eq!(shape("f(1, 2)(3)"), "f(1, 2)(3)");
    assert_eq!(shape("a[0][1]"), "a[0][1]");
    assert_eq!(shape("a.b(c)[d].e"), "a.b(c)[d].e");
    assert_eq!(shape("!f(x)"), "(!f(x))");
    assert_eq!(shape("!!a"), "(!(!a))");
    assert_eq!(shape("[]"), "[]");
    assert_eq!(shape("[1, [2, 3], \"x\"]"), "[1, [2, 3], \"x\"]");
    assert_eq!(shape("[1][0]"), "[1][0]");
    assert_eq!(shape("(f)(1)"), "f(1)");
}

#[test]
fn functions_and_classes_are_read() {
    assert_eq!(shape("fn f(a, b) { a }"), "(fn f(a, b) {a})");
    assert_eq!(shape("let f = fn(a) { a }"), "(fn f(a) {a})");
    assert_eq!(shape("f = fn(a) { a }"), "(f = (fn(a) {a}))");
    assert_eq!(shape("fn() { }"), "(fn() {unit})");
    assert_eq!(shape("g(fn(a) { a; })"), "g((fn(a) {(a; unit)}))");
    assert_eq!(shape("fn f() { } fn g() { }"), "((fn f() {unit}); (fn g() {unit}))");
    assert_eq!(shape("class A { }"), "(class A [] init: none methods: [])");
    assert_eq!(
        shape("class P { fn init(self, a) { self.x = a; self.y = 0; other.z = 1 } fn get(self) { self.x } fn put(me, v) { self.w = v; self.x = v } }"),
        "(class P [x, y, w] init: (a) {((self.x = a); ((self.y = 0); (other.z = 1)))} \
         methods: [get() {self.x}, put(me, v) {((self.w = v); (self.x = v))}])"
    );
    assert_eq!(
        shape("class A { fn one(self) { 1 }; fn init() { } }; A"),
        "((class A [] init: () {unit} methods: [one() {1}]); A)"
    );
}

#[test]
fn tokens_that_are_no_program_are_refused() {
    let refused = |text: &str| parse(&given(text));
    assert_eq!(refused(")"), Err(SyntaxError { msg: "Unexpected token".to_string() }));
    assert_eq!(refused("a b"), Err(SyntaxError { msg: "Expected `;`".to_string() }));
    assert_eq!(refused("a }"), Err(SyntaxError { msg: "Unexpected token".to_string() }));
    assert_eq!(refused("fn f"), Err(SyntaxError { msg: "Expected `(`".to_string() }));
    assert_eq!(refused("fn"), Err(SyntaxError { msg: "Expected `(`".to_string() }));
    assert_eq!(refused("while a b"), Err(SyntaxError { msg: "Expected `{`".to_string() }));
    assert_eq!(refused("class A"), Err(SyntaxError { msg: "Expected `{`".to_string() }));
    assert_eq!(refused("class A { fn }"), Err(SyntaxError { msg: "Expected a name after `fn`".to_string() }));
    assert_eq!(refused("f(1,)"), Err(SyntaxError { msg: "Unexpected token".to_string() }));
}
