//! The parser: from tokens to a syntax tree.
use vstd::prelude::*;
use vstd::string::StringExecFns;

use crate::compiler::scoping::{pure, pure_all, tidy, tidy_methods};
use crate::compiler::ast::{
    ast_view, ast_views, function_ast_views, names_view, ASTView, ClassAST, FunctionAST,
    FunctionASTView, AST,
};
use crate::grammar;
use crate::grammar::{at, Parsed, ParsedList, ParsedNames};
use crate::intermediate::constant::Constant;
use crate::intermediate::opcode::{BinaryOpcode, UnaryOpcode};
use crate::lexer::in_text_order;
use crate::lookup::contains_name;
use crate::token::{Operand, Operator, Token, TokenView};

verus! {

broadcast use vstd::std_specs::vec::group_vec_axioms;

/// Why a sequence of tokens is no program.
#[derive(Debug, PartialEq)]
pub struct SyntaxError {
    pub msg: String,
}

impl View for SyntaxError {
    type V = Seq<char>;

    open spec fn view(&self) -> Seq<char> {
        self.msg@
    }
}

/// What a parsing step that returned `res` amounts to.
pub open spec fn parsed(res: Result<(AST, usize), SyntaxError>) -> Parsed {
    match res {
        Ok((ast, next)) => Ok((ast@, next as nat)),
        Err(e) => Err(e@),
    }
}

/// The same for a list of trees.
pub open spec fn parsed_list(res: Result<(Vec<AST>, usize), SyntaxError>) -> ParsedList {
    match res {
        Ok((asts, next)) => Ok((ast_views(asts@), next as nat)),
        Err(e) => Err(e@),
    }
}

/// The same for a list of names.
pub open spec fn parsed_names(res: Result<(Vec<String>, usize), SyntaxError>) -> ParsedNames {
    match res {
        Ok((names, next)) => Ok((names_view(names@), next as nat)),
        Err(e) => Err(e@),
    }
}

fn fail(msg: &str) -> (res: Result<(AST, usize), SyntaxError>)
    ensures
        parsed(res) == Err::<(ASTView, nat), Seq<char>>(msg@),
{
    Err(SyntaxError { msg: String::from_str(msg) })
}

/// The token at a position of the text, if there is one. The list holds
/// the last token of the text first.
fn peek(tokens: &Vec<Token>, pos: usize) -> (res: Option<&Token>)
    ensures
        match res {
            Some(t) => at(in_text_order(tokens@), pos as nat) == Some(t@) && pos < tokens.len(),
            None => at(in_text_order(tokens@), pos as nat) is None && pos >= tokens.len(),
        },
{
    if pos < tokens.len() {
        Some(&tokens[tokens.len() - 1 - pos])
    } else {
        None
    }
}

/// The name at a position, if one stands there.
fn name_at(tokens: &Vec<Token>, pos: usize) -> (res: Option<String>)
    ensures
        match res {
            Some(name) => grammar::name_at(in_text_order(tokens@), pos as nat) == Some(name@) && pos
                < tokens.len(),
            None => grammar::name_at(in_text_order(tokens@), pos as nat) is None,
        },
{
    match peek(tokens, pos) {
        Some(Token::Operand(Operand::Var(name))) => Some(name.clone()),
        _ => None,
    }
}

/// The kinds of token that the parser asks for by name.
#[derive(Clone, Copy, PartialEq, Eq, Structural)]
enum Kind {
    Semicolon,
    Assign,
    Not,
    Comma,
    Dot,
    Else,
    If,
    Fn,
    RoundOpen,
    RoundClosed,
    SquareClosed,
    CurlyOpen,
    CurlyClosed,
    CallOpen,
}

/// The token that a kind names.
spec fn token_of(kind: Kind) -> TokenView {
    match kind {
        Kind::Semicolon => TokenView::Operator(Operator::Semicolon),
        Kind::Assign => TokenView::Operator(Operator::Assign),
        Kind::Not => TokenView::Operator(Operator::Not),
        Kind::Comma => TokenView::Comma,
        Kind::Dot => TokenView::Dot,
        Kind::Else => TokenView::Else,
        Kind::If => TokenView::If,
        Kind::Fn => TokenView::Fn,
        Kind::RoundOpen => TokenView::RoundBracketOpen,
        Kind::RoundClosed => TokenView::RoundBracketClosed,
        Kind::SquareClosed => TokenView::SquareBracketClosed,
        Kind::CurlyOpen => TokenView::CurlyBracketOpen,
        Kind::CurlyClosed => TokenView::CurlyBracketClosed,
        Kind::CallOpen => TokenView::FunctionCallOpen,
    }
}

/// Whether the token is of the kind.
fn is_kind(token: &Token, kind: Kind) -> (res: bool)
    ensures
        res == (token@ == token_of(kind)),
{
    match (token, kind) {
        (Token::Operator(Operator::Semicolon), Kind::Semicolon) => true,
        (Token::Operator(Operator::Assign), Kind::Assign) => true,
        (Token::Operator(Operator::Not), Kind::Not) => true,
        (Token::Comma, Kind::Comma) => true,
        (Token::Dot, Kind::Dot) => true,
        (Token::Else, Kind::Else) => true,
        (Token::If, Kind::If) => true,
        (Token::Fn, Kind::Fn) => true,
        (Token::RoundBracketOpen, Kind::RoundOpen) => true,
        (Token::RoundBracketClosed, Kind::RoundClosed) => true,
        (Token::SquareBracketClosed, Kind::SquareClosed) => true,
        (Token::CurlyBracketOpen, Kind::CurlyOpen) => true,
        (Token::CurlyBracketClosed, Kind::CurlyClosed) => true,
        (Token::FunctionCallOpen, Kind::CallOpen) => true,
        _ => false,
    }
}

/// Whether a token of the kind stands at a position.
fn token_is(tokens: &Vec<Token>, pos: usize, kind: Kind) -> (res: bool)
    ensures
        res == (at(in_text_order(tokens@), pos as nat) == Some(token_of(kind))),
        res ==> pos < tokens.len(),
{
    match peek(tokens, pos) {
        Some(t) => is_kind(t, kind),
        None => false,
    }
}

/// Whether a sequence of statements ends at a position.
fn closes(tokens: &Vec<Token>, pos: usize) -> (res: bool)
    ensures
        res == grammar::closes(in_text_order(tokens@), pos as nat),
{
    pos >= tokens.len() || token_is(tokens, pos, Kind::CurlyClosed)
}

/// The unit literal.
fn unit() -> (res: AST)
    ensures
        res@ == grammar::unit(),
{
    AST::Constant(Constant::Unit)
}

/// The binary operation that an operator stands for at a level.
fn opcode_at(op: Operator, level: usize) -> (res: Option<BinaryOpcode>)
    ensures
        res == grammar::opcode_at(op, level as nat),
{
    if level == 1 {
        match op {
            Operator::Or => Some(BinaryOpcode::Or),
            _ => None,
        }
    } else if level == 2 {
        match op {
            Operator::And => Some(BinaryOpcode::And),
            _ => None,
        }
    } else if level == 3 {
        match op {
            Operator::Eq => Some(BinaryOpcode::Equals),
            Operator::Neq => Some(BinaryOpcode::NotEquals),
            Operator::Lt => Some(BinaryOpcode::Lower),
            Operator::Lte => Some(BinaryOpcode::LowerEquals),
            Operator::Gt => Some(BinaryOpcode::Greater),
            Operator::Gte => Some(BinaryOpcode::GreaterEquals),
            _ => None,
        }
    } else if level == 4 {
        match op {
            Operator::Sum => Some(BinaryOpcode::Add),
            Operator::Sub => Some(BinaryOpcode::Sub),
            _ => None,
        }
    } else if level == 5 {
        match op {
            Operator::Mul => Some(BinaryOpcode::Mul),
            Operator::Div => Some(BinaryOpcode::Div),
            _ => None,
        }
    } else {
        None
    }
}

/// The binary operation of a level that stands at a position.
fn operator_at(tokens: &Vec<Token>, pos: usize, level: usize) -> (res: Option<BinaryOpcode>)
    ensures
        res == grammar::operator_at(in_text_order(tokens@), pos as nat, level as nat),
        res is Some ==> pos < tokens.len(),
{
    match peek(tokens, pos) {
        Some(Token::Operator(op)) => opcode_at(*op, level),
        _ => None,
    }
}

/// Reads the names up to the closing bracket.
fn parse_parameters(tokens: &Vec<Token>, start: usize) -> (res: Result<(Vec<String>, usize), SyntaxError>)
    ensures
        parsed_names(res) == grammar::parameters(in_text_order(tokens@), start as nat, Seq::empty()),
        res matches Ok((_, next)) ==> start < next <= tokens.len(),
{
    let mut names: Vec<String> = Vec::new();
    let mut pos: usize = start;
    proof {
        assert(names_view(names@) =~= Seq::empty());
    }
    if token_is(tokens, pos, Kind::RoundClosed) {
        return Ok((names, pos + 1));
    }
    loop
        invariant
            start <= pos,
            pos == start ==> names.len() == 0,
            pos > start ==> names.len() > 0,
            names_view(names@).len() == names.len(),
            grammar::parameters(in_text_order(tokens@), start as nat, Seq::empty()) == grammar::parameters(
                in_text_order(tokens@),
                pos as nat,
                names_view(names@),
            ),
            !(at(in_text_order(tokens@), pos as nat) == Some(TokenView::RoundBracketClosed) && names.len()
                == 0),
        decreases tokens.len() - pos,
    {
        let name = match name_at(tokens, pos) {
            Some(name) => name,
            None => {
                return Err(SyntaxError { msg: String::from_str("Expected a parameter") });
            },
        };
        let ghost before = names_view(names@);
        names.push(name);
        proof {
            assert(names_view(names@) =~= before.push(name@));
        }
        if token_is(tokens, pos + 1, Kind::RoundClosed) {
            return Ok((names, pos + 2));
        } else if token_is(tokens, pos + 1, Kind::Comma) {
            pos = pos + 2;
        } else {
            return Err(SyntaxError { msg: String::from_str("Expected `,` or `)`") });
        }
    }
}

/// Reads a sequence of statements.
pub fn parse_sequence(tokens: &Vec<Token>, pos: usize) -> (res: Result<(AST, usize), SyntaxError>)
    ensures
        parsed(res) == grammar::sequence(in_text_order(tokens@), pos as nat),
        res matches Ok((_, next)) ==> pos < next <= tokens.len(),
        res matches Ok((ast, _)) ==> tidy(ast@),
    decreases tokens.len() - pos, 30nat,
{
    proof {
        reveal_with_fuel(tidy, 3);
        reveal_with_fuel(pure, 3);
    }
    let (first, p) = match parse_statement(tokens, pos) {
        Err(e) => {
            return Err(e);
        },
        Ok(r) => r,
    };
    if token_is(tokens, p, Kind::Semicolon) {
        if closes(tokens, p + 1) {
            Ok((AST::Concatenation { left: Box::new(first), right: Box::new(unit()) }, p + 1))
        } else {
            match parse_sequence(tokens, p + 1) {
                Err(e) => Err(e),
                Ok((rest, q)) => Ok((AST::Concatenation { left: Box::new(first), right: Box::new(rest) }, q)),
            }
        }
    } else if closes(tokens, p) {
        Ok((first, p))
    } else if is_kind(&tokens[tokens.len() - p], Kind::CurlyClosed) {
        match parse_sequence(tokens, p) {
            Err(e) => Err(e),
            Ok((rest, q)) => Ok((AST::Concatenation { left: Box::new(first), right: Box::new(rest) }, q)),
        }
    } else {
        fail("Expected `;`")
    }
}

/// Reads a statement.
fn parse_statement(tokens: &Vec<Token>, pos: usize) -> (res: Result<(AST, usize), SyntaxError>)
    ensures
        parsed(res) == grammar::statement(in_text_order(tokens@), pos as nat),
        res matches Ok((_, next)) ==> pos < next <= tokens.len(),
        res matches Ok((ast, _)) ==> tidy(ast@),
    decreases tokens.len() - pos, 29nat,
{
    proof {
        reveal_with_fuel(tidy, 3);
        reveal_with_fuel(pure, 3);
    }
    proof {
        reveal_with_fuel(ast_view, 2);
    }
    match peek(tokens, pos) {
        Some(Token::Let) => {
            let name = match name_at(tokens, pos + 1) {
                None => {
                    return fail("Expected a name after `let`");
                },
                Some(name) => name,
            };
            if token_is(tokens, pos + 2, Kind::Assign) {
                if token_is(tokens, pos + 3, Kind::Fn) {
                    parse_function(tokens, pos + 4, name)
                } else {
                    match parse_expression(tokens, pos + 3) {
                        Err(e) => Err(e),
                        Ok((value, p)) => Ok(
                            (AST::Assignment(Box::new(AST::Definition(name)), Box::new(value)), p),
                        ),
                    }
                }
            } else {
                Ok((AST::Definition(name), pos + 2))
            }
        },
        Some(Token::Fn) => match name_at(tokens, pos + 1) {
            Some(name) => parse_function(tokens, pos + 2, name),
            None => parse_plain(tokens, pos),
        },
        Some(Token::Class) => parse_class(tokens, pos),
        _ => parse_plain(tokens, pos),
    }
}

/// Reads an expression that stands as a statement.
fn parse_plain(tokens: &Vec<Token>, pos: usize) -> (res: Result<(AST, usize), SyntaxError>)
    ensures
        parsed(res) == grammar::expression(in_text_order(tokens@), pos as nat),
        res matches Ok((_, next)) ==> pos < next <= tokens.len(),
        res matches Ok((ast, _)) ==> tidy(ast@),
    decreases tokens.len() - pos, 19nat,
{
    let res = parse_expression(tokens, pos);
    proof {
        if res is Ok {
            crate::compiler::scoping::lemma_pure_is_tidy(res->Ok_0.0@);
        }
    }
    res
}

/// Reads the parameters and the body of a function.
fn parse_function_parts(tokens: &Vec<Token>, pos: usize, name: &String) -> (res: Result<
    (Vec<String>, AST, usize),
    SyntaxError,
>)
    ensures
        res matches Ok((_, body, _)) ==> tidy(body@),
        match res {
            Ok((args, body, next)) => grammar::function(in_text_order(tokens@), pos as nat, name@) == Ok::<
                (ASTView, nat),
                Seq<char>,
            >(
                (
                    ASTView::Function(
                        Box::new(FunctionASTView { name: name@, args: names_view(args@), body: body@ }),
                    ),
                    next as nat,
                ),
            ) && pos < next <= tokens.len(),
            Err(e) => grammar::function(in_text_order(tokens@), pos as nat, name@) == Err::<
                (ASTView, nat),
                Seq<char>,
            >(e@),
        },
    decreases tokens.len() - pos, 19nat,
{
    if token_is(tokens, pos, Kind::RoundOpen) || token_is(tokens, pos, Kind::CallOpen) {
        let (args, p) = match parse_parameters(tokens, pos + 1) {
            Err(e) => {
                return Err(e);
            },
            Ok(r) => r,
        };
        match parse_block(tokens, p) {
            Err(e) => Err(e),
            Ok((body, q)) => Ok((args, body, q)),
        }
    } else {
        Err(SyntaxError { msg: String::from_str("Expected `(`") })
    }
}

/// Reads the rest of a function with a name.
fn parse_function(tokens: &Vec<Token>, pos: usize, name: String) -> (res: Result<(AST, usize), SyntaxError>)
    ensures
        parsed(res) == grammar::function(in_text_order(tokens@), pos as nat, name@),
        res matches Ok((_, next)) ==> pos < next <= tokens.len(),
        res matches Ok((ast, _)) ==> tidy(ast@),
    decreases tokens.len() - pos, 20nat,
{
    proof {
        reveal_with_fuel(tidy, 3);
        reveal_with_fuel(pure, 3);
    }
    match parse_function_parts(tokens, pos, &name) {
        Err(e) => Err(e),
        Ok((args, body, q)) => {
            let function = FunctionAST { name, args, body };
            proof {
                assert(function@.name == function.name@ && function@.args == names_view(function.args@)
                    && function@.body == function.body@);
            }
            Ok((AST::Function(Box::new(function)), q))
        },
    }
}

/// Reads an expression.
pub fn parse_expression(tokens: &Vec<Token>, pos: usize) -> (res: Result<(AST, usize), SyntaxError>)
    ensures
        parsed(res) == grammar::expression(in_text_order(tokens@), pos as nat),
        res matches Ok((_, next)) ==> pos < next <= tokens.len(),
        res matches Ok((ast, _)) ==> pure(ast@),
    decreases tokens.len() - pos, 18nat,
{
    proof {
        reveal_with_fuel(tidy, 3);
        reveal_with_fuel(pure, 3);
    }
    let (left, p) = match parse_binary(tokens, pos, 1) {
        Err(e) => {
            return Err(e);
        },
        Ok(r) => r,
    };
    if token_is(tokens, p, Kind::Assign) {
        match parse_expression(tokens, p + 1) {
            Err(e) => Err(e),
            Ok((right, q)) => Ok((AST::Assignment(Box::new(left), Box::new(right)), q)),
        }
    } else {
        Ok((left, p))
    }
}

/// Reads an operand of a level with the operators of that level behind it.
fn parse_binary(tokens: &Vec<Token>, pos: usize, level: usize) -> (res: Result<(AST, usize), SyntaxError>)
    ensures
        parsed(res) == grammar::binary(in_text_order(tokens@), pos as nat, level as nat),
        res matches Ok((_, next)) ==> pos < next <= tokens.len(),
        res matches Ok((ast, _)) ==> pure(ast@),
    decreases tokens.len() - pos,
        (if level <= 6 {
            17 - level
        } else {
            11
        }),
{
    proof {
        reveal_with_fuel(tidy, 3);
        reveal_with_fuel(pure, 3);
    }
    if level > 5 || level == 0 {
        parse_unary(tokens, pos)
    } else {
        let (left, p) = match parse_binary(tokens, pos, level + 1) {
            Err(e) => {
                return Err(e);
            },
            Ok(r) => r,
        };
        parse_binary_rest(tokens, p, level, left)
    }
}

/// Reads the operators of a level that follow `left`.
fn parse_binary_rest(tokens: &Vec<Token>, pos: usize, level: usize, left: AST) -> (res: Result<
    (AST, usize),
    SyntaxError,
>)
    requires
        pos <= tokens.len(),
        1 <= level <= 5,
        pure(left@),
    ensures
        parsed(res) == grammar::binary_rest(in_text_order(tokens@), pos as nat, level as nat, left@),
        res matches Ok((_, next)) ==> pos <= next <= tokens.len(),
        res matches Ok((ast, _)) ==> pure(ast@),
    decreases tokens.len() - pos, 25nat,
{
    proof {
        reveal_with_fuel(tidy, 3);
        reveal_with_fuel(pure, 3);
    }
    match operator_at(tokens, pos, level) {
        None => Ok((left, pos)),
        Some(op) => {
            let (right, p) = match parse_binary(tokens, pos + 1, level + 1) {
                Err(e) => {
                    return Err(e);
                },
                Ok(r) => r,
            };
            parse_binary_rest(tokens, p, level, AST::BinaryOp(Box::new(left), op, Box::new(right)))
        },
    }
}

/// Reads `!e` or an expression with what is applied to it.
fn parse_unary(tokens: &Vec<Token>, pos: usize) -> (res: Result<(AST, usize), SyntaxError>)
    ensures
        parsed(res) == grammar::unary(in_text_order(tokens@), pos as nat),
        res matches Ok((_, next)) ==> pos < next <= tokens.len(),
        res matches Ok((ast, _)) ==> pure(ast@),
    decreases tokens.len() - pos, 10nat,
{
    proof {
        reveal_with_fuel(tidy, 3);
        reveal_with_fuel(pure, 3);
    }
    if token_is(tokens, pos, Kind::Not) {
        match parse_unary(tokens, pos + 1) {
            Err(e) => Err(e),
            Ok((arg, p)) => Ok((AST::UnaryOp(UnaryOpcode::Not, Box::new(arg)), p)),
        }
    } else {
        let (first, p) = match parse_primary(tokens, pos) {
            Err(e) => {
                return Err(e);
            },
            Ok(r) => r,
        };
        parse_postfix(tokens, p, first)
    }
}

/// Reads the calls, subscripts and properties that are applied to `left`.
fn parse_postfix(tokens: &Vec<Token>, pos: usize, left: AST) -> (res: Result<(AST, usize), SyntaxError>)
    requires
        pos <= tokens.len(),
        pure(left@),
    ensures
        parsed(res) == grammar::postfix(in_text_order(tokens@), pos as nat, left@),
        res matches Ok((_, next)) ==> pos <= next <= tokens.len(),
        res matches Ok((ast, _)) ==> pure(ast@),
    decreases tokens.len() - pos, 25nat,
{
    proof {
        reveal_with_fuel(tidy, 3);
        reveal_with_fuel(pure, 3);
    }
    match peek(tokens, pos) {
        Some(Token::FunctionCallOpen) => {
            let (args, p) = match parse_items(tokens, pos + 1, true) {
                Err(e) => {
                    return Err(e);
                },
                Ok(r) => r,
            };
            parse_postfix(tokens, p, AST::FunctionCall { fun: Box::new(left), args })
        },
        Some(Token::ListSelectionOpen) => {
            let (index, p) = match parse_expression(tokens, pos + 1) {
                Err(e) => {
                    return Err(e);
                },
                Ok(r) => r,
            };
            if token_is(tokens, p, Kind::SquareClosed) {
                parse_postfix(tokens, p + 1, AST::Subscript { element: Box::new(left), index: Box::new(index) })
            } else {
                fail("Expected `]`")
            }
        },
        Some(Token::Dot) => match name_at(tokens, pos + 1) {
            Some(name) => parse_postfix(
                tokens,
                pos + 2,
                AST::PropertyAccess { exp: Box::new(left), property: name },
            ),
            None => fail("Expected a name after `.`"),
        },
        _ => Ok((left, pos)),
    }
}

/// Reads expressions separated by commas up to the closing bracket.
fn parse_items(tokens: &Vec<Token>, start: usize, round: bool) -> (res: Result<(Vec<AST>, usize), SyntaxError>)
    requires
        start <= tokens.len(),
    ensures
        parsed_list(res) == grammar::items(in_text_order(tokens@), start as nat, round, Seq::empty()),
        res matches Ok((_, next)) ==> start < next <= tokens.len(),
        res matches Ok((asts, _)) ==> pure_all(ast_views(asts@), asts.len() as nat),
    decreases tokens.len() - start, 27nat,
{
    let closing = if round {
        Kind::RoundClosed
    } else {
        Kind::SquareClosed
    };
    let mut done: Vec<AST> = Vec::new();
    let mut pos: usize = start;
    proof {
        assert(ast_views(done@) =~= Seq::empty());
    }
    if token_is(tokens, pos, closing) {
        return Ok((done, pos + 1));
    }
    loop
        invariant
            start <= pos <= tokens.len(),
            token_of(closing) == grammar::closing(round),
            pos == start ==> done.len() == 0,
            pos > start ==> done.len() > 0,
            ast_views(done@).len() == done.len(),
            pure_all(ast_views(done@), done.len() as nat),
            grammar::items(in_text_order(tokens@), start as nat, round, Seq::empty()) == grammar::items(
                in_text_order(tokens@),
                pos as nat,
                round,
                ast_views(done@),
            ),
            !(at(in_text_order(tokens@), pos as nat) == Some(grammar::closing(round)) && done.len() == 0),
        decreases tokens.len() - pos,
    {
        let (item, p) = match parse_expression(tokens, pos) {
            Err(e) => {
                return Err(e);
            },
            Ok(r) => r,
        };
        let ghost before = ast_views(done@);
        done.push(item);
        proof {
            assert(ast_views(done@) =~= before.push(item@));
            lemma_pure_all_same(before, ast_views(done@), before.len());
        }
        if token_is(tokens, p, closing) {
            return Ok((done, p + 1));
        } else if token_is(tokens, p, Kind::Comma) {
            pos = p + 1;
        } else {
            return Err(SyntaxError { msg: String::from_str("Expected `,`") });
        }
    }
}

/// Reads a literal, a name, an expression in brackets, a list, a block, a
/// conditional, a loop or a function without a name.
fn parse_primary(tokens: &Vec<Token>, pos: usize) -> (res: Result<(AST, usize), SyntaxError>)
    ensures
        parsed(res) == grammar::primary(in_text_order(tokens@), pos as nat),
        res matches Ok((_, next)) ==> pos < next <= tokens.len(),
        res matches Ok((ast, _)) ==> pure(ast@),
    decreases tokens.len() - pos, 8nat,
{
    proof {
        reveal_with_fuel(tidy, 3);
        reveal_with_fuel(pure, 3);
    }
    proof {
        reveal_with_fuel(ast_view, 2);
    }
    match peek(tokens, pos) {
        Some(Token::Operand(operand)) => {
            let ast = match operand {
                Operand::Null => unit(),
                Operand::Int(i) => AST::Constant(Constant::Int(*i)),
                Operand::Bool(b) => AST::Constant(Constant::Bool(*b)),
                Operand::Str(s) => AST::Constant(Constant::String(s.clone())),
                Operand::Var(name) => AST::Identifier(name.clone()),
            };
            Ok((ast, pos + 1))
        },
        Some(Token::RoundBracketOpen) => {
            let (inner, p) = match parse_expression(tokens, pos + 1) {
                Err(e) => {
                    return Err(e);
                },
                Ok(r) => r,
            };
            if token_is(tokens, p, Kind::RoundClosed) {
                Ok((inner, p + 1))
            } else {
                fail("Expected `)`")
            }
        },
        Some(Token::SquareBracketOpen) => {
            match parse_items(tokens, pos + 1, false) {
                Err(e) => Err(e),
                Ok((elements, p)) => Ok((AST::List { elements }, p)),
            }
        },
        Some(Token::CurlyBracketOpen) => {
            match parse_block(tokens, pos) {
                Err(e) => Err(e),
                Ok((body, p)) => Ok((AST::Block(Box::new(body)), p)),
            }
        },
        Some(Token::If) => parse_conditional(tokens, pos),
        Some(Token::While) => {
            let (guard, p) = match parse_expression(tokens, pos + 1) {
                Err(e) => {
                    return Err(e);
                },
                Ok(r) => r,
            };
            match parse_block(tokens, p) {
                Err(e) => Err(e),
                Ok((body, q)) => Ok(
                    (
                        AST::While { guard: Box::new(guard), exp: Box::new(AST::Block(Box::new(body))) },
                        q,
                    ),
                ),
            }
        },
        Some(Token::Fn) => {
            if token_is(tokens, pos + 1, Kind::RoundOpen) {
                let (args, p) = match parse_parameters(tokens, pos + 2) {
                    Err(e) => {
                        return Err(e);
                    },
                    Ok(r) => r,
                };
                match parse_block(tokens, p) {
                    Err(e) => Err(e),
                    Ok((body, q)) => Ok((AST::Closure { args, exp: Box::new(body) }, q)),
                }
            } else {
                fail("Expected `(`")
            }
        },
        _ => fail("Unexpected token"),
    }
}

/// Reads a conditional.
fn parse_conditional(tokens: &Vec<Token>, pos: usize) -> (res: Result<(AST, usize), SyntaxError>)
    ensures
        parsed(res) == grammar::conditional(in_text_order(tokens@), pos as nat),
        res matches Ok((_, next)) ==> pos < next <= tokens.len(),
        res matches Ok((ast, _)) ==> pure(ast@),
    decreases tokens.len() - pos, 7nat,
{
    proof {
        reveal_with_fuel(tidy, 3);
        reveal_with_fuel(pure, 3);
    }
    if !token_is(tokens, pos, Kind::If) {
        return fail("Expected `if`");
    }
    let (condition, p) = match parse_expression(tokens, pos + 1) {
        Err(e) => {
            return Err(e);
        },
        Ok(r) => r,
    };
    let (then_block, q) = match parse_block(tokens, p) {
        Err(e) => {
            return Err(e);
        },
        Ok(r) => r,
    };
    if token_is(tokens, q, Kind::Else) {
        let other = if token_is(tokens, q + 1, Kind::If) {
            parse_conditional(tokens, q + 1)
        } else {
            parse_block(tokens, q + 1)
        };
        match other {
            Err(e) => Err(e),
            Ok((else_block, r)) => Ok(
                (
                    AST::Condition {
                        exp: Box::new(condition),
                        then_block: Box::new(then_block),
                        else_block: Box::new(else_block),
                    },
                    r,
                ),
            ),
        }
    } else {
        Ok(
            (
                AST::Condition {
                    exp: Box::new(condition),
                    then_block: Box::new(then_block),
                    else_block: Box::new(unit()),
                },
                q,
            ),
        )
    }
}

/// Reads the statements between braces.
fn parse_block(tokens: &Vec<Token>, pos: usize) -> (res: Result<(AST, usize), SyntaxError>)
    ensures
        parsed(res) == grammar::block(in_text_order(tokens@), pos as nat),
        res matches Ok((_, next)) ==> pos < next <= tokens.len(),
        res matches Ok((ast, _)) ==> tidy(ast@),
    decreases tokens.len() - pos, 6nat,
{
    proof {
        reveal_with_fuel(tidy, 3);
        reveal_with_fuel(pure, 3);
    }
    if !token_is(tokens, pos, Kind::CurlyOpen) {
        fail("Expected `{`")
    } else if token_is(tokens, pos + 1, Kind::CurlyClosed) {
        Ok((unit(), pos + 2))
    } else {
        let (body, p) = match parse_sequence(tokens, pos + 1) {
            Err(e) => {
                return Err(e);
            },
            Ok(r) => r,
        };
        if token_is(tokens, p, Kind::CurlyClosed) {
            Ok((body, p + 1))
        } else {
            fail("Expected `}`")
        }
    }
}

/// Whether a name is the given word.
fn is_word(name: &String, word: &str) -> (res: bool)
    ensures
        res == (name@ == word@),
{
    let other = String::from_str(word);
    *name == other
}

/// Takes the `self` off the start of the parameters of a method.
fn without_self(args: Vec<String>) -> (res: Vec<String>)
    ensures
        names_view(res@) == grammar::without_self(names_view(args@)),
{
    let mut args = args;
    if args.len() > 0 && is_word(&args[0], "self") {
        let ghost before = names_view(args@);
        args.remove(0);
        proof {
            assert(names_view(args@) =~= before.drop_first());
        }
    }
    args
}

/// Reads the methods of a class up to the closing brace.
fn parse_members(tokens: &Vec<Token>, start: usize) -> (res: Result<(Vec<FunctionAST>, usize), SyntaxError>)
    ensures
        res matches Ok((methods, _)) ==> tidy_methods(function_ast_views(methods@), methods.len() as nat),
        match res {
            Ok((methods, next)) => grammar::members(in_text_order(tokens@), start as nat, Seq::empty()) == Ok::<
                (Seq<FunctionASTView>, nat),
                Seq<char>,
            >((function_ast_views(methods@), next as nat)) && start < next <= tokens.len(),
            Err(e) => grammar::members(in_text_order(tokens@), start as nat, Seq::empty()) == Err::<
                (Seq<FunctionASTView>, nat),
                Seq<char>,
            >(e@),
        },
    decreases tokens.len() - start, 27nat,
{
    let mut done: Vec<FunctionAST> = Vec::new();
    let mut pos: usize = start;
    proof {
        assert(function_ast_views(done@) =~= Seq::empty());
    }
    loop
        invariant
            start <= pos,
            function_ast_views(done@).len() == done.len(),
            tidy_methods(function_ast_views(done@), done.len() as nat),
            grammar::members(in_text_order(tokens@), start as nat, Seq::empty()) == grammar::members(
                in_text_order(tokens@),
                pos as nat,
                function_ast_views(done@),
            ),
        decreases tokens.len() - pos,
    {
        if token_is(tokens, pos, Kind::CurlyClosed) {
            return Ok((done, pos + 1));
        }
        if !token_is(tokens, pos, Kind::Fn) {
            return Err(SyntaxError { msg: String::from_str("Expected `fn` or `}`") });
        }
        let name = match name_at(tokens, pos + 1) {
            None => {
                return Err(SyntaxError { msg: String::from_str("Expected a name after `fn`") });
            },
            Some(name) => name,
        };
        let (args, body, p) = match parse_function_parts(tokens, pos + 2, &name) {
            Err(e) => {
                return Err(e);
            },
            Ok(r) => r,
        };
        let method = FunctionAST { name, args: without_self(args), body };
        let ghost before = function_ast_views(done@);
        proof {
            assert(method@.name == method.name@ && method@.args == names_view(method.args@) && method@.body
                == method.body@);
        }
        done.push(method);
        proof {
            assert(function_ast_views(done@) =~= before.push(method@));
            lemma_tidy_methods_same(before, function_ast_views(done@), before.len());
        }
        if token_is(tokens, p, Kind::Semicolon) {
            pos = p + 1;
        } else {
            pos = p;
        }
    }
}

/// Adds to `names` the fields that the trees assign through `self`.
fn collect_fields_all(asts: &Vec<AST>, names: &mut Vec<String>)
    ensures
        names_view(final(names)@) == grammar::assigned_fields_all(
            ast_views(asts@),
            asts.len() as nat,
            names_view(old(names)@),
        ),
    decreases asts, 1nat,
{
    let mut i: usize = 0;
    while i < asts.len()
        invariant
            i <= asts.len(),
            names_view(names@) == grammar::assigned_fields_all(
                ast_views(asts@),
                i as nat,
                names_view(old(names)@),
            ),
        decreases asts.len() - i,
    {
        collect_fields(&asts[i], names);
        proof {
            assert(ast_views(asts@)[i as int] == asts[i as int]@);
        }
        i += 1;
    }
}

/// Adds to `names` the fields that the tree assigns through `self`.
fn collect_fields(ast: &AST, names: &mut Vec<String>)
    ensures
        names_view(final(names)@) == grammar::assigned_fields(ast@, names_view(old(names)@)),
    decreases ast, 0nat,
{
    proof {
        reveal_with_fuel(ast_view, 3);
    }
    match ast {
        AST::Concatenation { left, right } => {
            collect_fields(left, names);
            collect_fields(right, names);
        },
        AST::BinaryOp(arg1, _, arg2) => {
            collect_fields(arg1, names);
            collect_fields(arg2, names);
        },
        AST::UnaryOp(_, arg) => {
            collect_fields(arg, names);
        },
        AST::Assignment(left, right) => {
            collect_fields(left, names);
            collect_fields(right, names);
            match &**left {
                AST::PropertyAccess { exp, property } => {
                    let through_self = match &**exp {
                        AST::Identifier(name) => is_word(name, "self"),
                        _ => false,
                    };
                    if through_self && !contains_name(names, property) {
                        let ghost before = names_view(names@);
                        names.push(property.clone());
                        proof {
                            assert(names_view(names@) =~= before.push(property@));
                        }
                    }
                },
                _ => {},
            }
        },
        AST::Block(exp) => {
            collect_fields(exp, names);
        },
        AST::Condition { exp, then_block, else_block } => {
            collect_fields(exp, names);
            collect_fields(then_block, names);
            collect_fields(else_block, names);
        },
        AST::While { guard, exp } => {
            collect_fields(guard, names);
            collect_fields(exp, names);
        },
        AST::List { elements } => {
            collect_fields_all(elements, names);
        },
        AST::Subscript { element, index } => {
            collect_fields(element, names);
            collect_fields(index, names);
        },
        AST::FunctionCall { fun, args } => {
            collect_fields(fun, names);
            collect_fields_all(args, names);
        },
        AST::PropertyAccess { exp, property: _ } => {
            collect_fields(exp, names);
        },
        _ => {},
    }
}

/// Makes a class of a name and the functions written in it.
fn make_class(name: String, functions: Vec<FunctionAST>) -> (class: ClassAST)
    requires
        tidy_methods(function_ast_views(functions@), functions.len() as nat),
    ensures
        class@ == grammar::make_class(name@, function_ast_views(functions@)),
        tidy(ASTView::Class(Box::new(class@))),
{
    let ghost views = function_ast_views(functions@);
    let mut functions = functions;
    let mut fields: Vec<String> = Vec::new();
    let mut i: usize = 0;
    proof {
        assert(names_view(fields@) =~= Seq::empty());
    }
    while i < functions.len()
        invariant
            i <= functions.len(),
            views == function_ast_views(functions@),
            names_view(fields@) == grammar::method_fields(views, i as nat, Seq::empty()),
        decreases functions.len() - i,
    {
        proof {
            assert(views[i as int] == functions[i as int]@);
            assert(functions[i as int]@.body == functions[i as int].body@);
        }
        collect_fields(&functions[i].body, &mut fields);
        i += 1;
    }
    let mut found: Option<usize> = None;
    let mut k: usize = 0;
    while k < functions.len() && found.is_none()
        invariant
            k <= functions.len(),
            views == function_ast_views(functions@),
            views.len() == functions.len(),
            match found {
                Some(at) => grammar::constructor_index(views, k as nat) == Some(at as nat) && at < k,
                None => grammar::constructor_index(views, k as nat) is None,
            },
        decreases functions.len() - k + (if found is None { 1nat } else { 0nat }),
    {
        proof {
            assert(views[k as int] == functions[k as int]@);
            assert(functions[k as int]@.name == functions[k as int].name@);
        }
        if is_word(&functions[k].name, "init") {
            found = Some(k);
        }
        k += 1;
    }
    proof {
        if found is Some {
            lemma_constructor_index_stays(views, k as nat, views.len());
        }
    }
    let constructor = match found {
        Some(at) => {
            let taken = functions.remove(at);
            proof {
                assert(function_ast_views(functions@) =~= views.remove(at as int));
                assert(taken@ == views[at as int]);
                lemma_tidy_methods_remove(views, at as int);
            }
            Some(taken)
        },
        None => None,
    };
    let class = ClassAST { name, fields, constructor, methods: functions };
    proof {
        assert(class@.name == class.name@ && class@.fields == names_view(class.fields@) && class@.methods
            == function_ast_views(class.methods@));
        assert(function_ast_views(class.methods@).len() == class.methods.len());
        reveal_with_fuel(tidy, 2);
    }
    class
}

/// Whether the first trees of a list are pure depends on those trees only.
pub proof fn lemma_pure_all_same(a: Seq<ASTView>, b: Seq<ASTView>, n: nat)
    requires
        n <= a.len(),
        n <= b.len(),
        forall|i: int| 0 <= i < n ==> a[i] == b[i],
    ensures
        pure_all(a, n) == pure_all(b, n),
    decreases n,
{
    if n > 0 {
        lemma_pure_all_same(a, b, (n - 1) as nat);
    }
}

/// Whether the first methods of a list are tidy depends on those methods
/// only.
pub proof fn lemma_tidy_methods_same(a: Seq<FunctionASTView>, b: Seq<FunctionASTView>, n: nat)
    requires
        n <= a.len(),
        n <= b.len(),
        forall|i: int| 0 <= i < n ==> a[i] == b[i],
    ensures
        tidy_methods(a, n) == tidy_methods(b, n),
    decreases n,
{
    if n > 0 {
        lemma_tidy_methods_same(a, b, (n - 1) as nat);
    }
}

/// Taking one method out of a list of tidy methods leaves tidy methods.
pub proof fn lemma_tidy_methods_remove(methods: Seq<FunctionASTView>, at: int)
    requires
        0 <= at < methods.len(),
        tidy_methods(methods, methods.len()),
    ensures
        tidy_methods(methods.remove(at), (methods.len() - 1) as nat),
        tidy(methods[at].body),
{
    let rest = methods.remove(at);
    crate::compiler::scoping::lemma_tidy_methods_element(methods, methods.len(), at);
    lemma_tidy_methods_all(rest, rest.len(), methods, at);
}

/// Methods that are each tidy are tidy together.
pub proof fn lemma_tidy_methods_all(rest: Seq<FunctionASTView>, n: nat, methods: Seq<FunctionASTView>, at: int)
    requires
        0 <= at < methods.len(),
        rest == methods.remove(at),
        n <= rest.len(),
        tidy_methods(methods, methods.len()),
    ensures
        tidy_methods(rest, n),
    decreases n,
{
    if n > 0 {
        lemma_tidy_methods_all(rest, (n - 1) as nat, methods, at);
        let i = n - 1;
        if i < at {
            crate::compiler::scoping::lemma_tidy_methods_element(methods, methods.len(), i);
        } else {
            crate::compiler::scoping::lemma_tidy_methods_element(methods, methods.len(), i + 1);
        }
    }
}

/// Once a constructor is found, looking at more functions finds the same
/// one.
pub proof fn lemma_constructor_index_stays(methods: Seq<FunctionASTView>, n: nat, k: nat)
    requires
        n <= k <= methods.len(),
        grammar::constructor_index(methods, n) is Some,
    ensures
        grammar::constructor_index(methods, k) == grammar::constructor_index(methods, n),
    decreases k,
{
    if n < k {
        lemma_constructor_index_stays(methods, n, (k - 1) as nat);
    }
}

/// Reads a class.
fn parse_class(tokens: &Vec<Token>, pos: usize) -> (res: Result<(AST, usize), SyntaxError>)
    requires
        pos < tokens.len(),
    ensures
        parsed(res) == grammar::class(in_text_order(tokens@), pos as nat),
        res matches Ok((_, next)) ==> pos < next <= tokens.len(),
        res matches Ok((ast, _)) ==> tidy(ast@),
    decreases tokens.len() - pos, 28nat,
{
    proof {
        reveal_with_fuel(tidy, 3);
        reveal_with_fuel(pure, 3);
    }
    let name = match name_at(tokens, pos + 1) {
        None => {
            return fail("Expected a name after `class`");
        },
        Some(name) => name,
    };
    if token_is(tokens, pos + 2, Kind::CurlyOpen) {
        match parse_members(tokens, pos + 3) {
            Err(e) => Err(e),
            Ok((functions, p)) => Ok((AST::Class(Box::new(make_class(name, functions))), p)),
        }
    } else {
        fail("Expected `{`")
    }
}

/// Reads a whole program from a list of tokens that holds the last token of
/// the text first, as `tokenize` gives it.
pub fn parse(tokens: &Vec<Token>) -> (res: Result<AST, SyntaxError>)
    ensures
        match res {
            Ok(ast) => grammar::program(in_text_order(tokens@)) == Ok::<ASTView, Seq<char>>(ast@) && tidy(
                ast@,
            ),
            Err(e) => grammar::program(in_text_order(tokens@)) == Err::<ASTView, Seq<char>>(e@),
        },
{
    proof {
        reveal_with_fuel(tidy, 3);
        reveal_with_fuel(pure, 3);
    }
    if tokens.len() == 0 {
        return Ok(unit());
    }
    match parse_sequence(tokens, 0) {
        Err(e) => Err(e),
        Ok((ast, p)) => {
            if p == tokens.len() {
                Ok(ast)
            } else {
                Err(SyntaxError { msg: String::from_str("Unexpected token") })
            }
        },
    }
}

} // verus!
