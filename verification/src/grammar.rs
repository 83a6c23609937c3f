//! The grammar of the language: which syntax tree a sequence of tokens
//! stands for.
use vstd::prelude::*;

use crate::compiler::ast::{ASTView, ClassASTView, FunctionASTView};
use crate::intermediate::constant::ConstantView;
use crate::intermediate::opcode::{BinaryOpcode, UnaryOpcode};
use crate::token::{OperandView, Operator, TokenView};

verus! {

/// A syntax tree and the position behind the tokens it was read from, or
/// the reason why the tokens at that place are no program.
pub type Parsed = Result<(ASTView, nat), Seq<char>>;

/// A list of syntax trees and the position behind them.
pub type ParsedList = Result<(Seq<ASTView>, nat), Seq<char>>;

/// A list of names and the position behind them.
pub type ParsedNames = Result<(Seq<Seq<char>>, nat), Seq<char>>;

/// The token at a position, if there is one.
pub open spec fn at(tokens: Seq<TokenView>, pos: nat) -> Option<TokenView> {
    if pos < tokens.len() {
        Some(tokens[pos as int])
    } else {
        None
    }
}

/// The name that stands at a position, if one does.
pub open spec fn name_at(tokens: Seq<TokenView>, pos: nat) -> Option<Seq<char>> {
    match at(tokens, pos) {
        Some(TokenView::Operand(OperandView::Var(name))) => Some(name),
        _ => None,
    }
}

/// Whether a sequence of statements ends at a position: at the end of the
/// tokens or before a closing brace.
pub open spec fn closes(tokens: Seq<TokenView>, pos: nat) -> bool {
    at(tokens, pos) is None || at(tokens, pos) == Some(TokenView::CurlyBracketClosed)
}

/// The unit literal.
pub open spec fn unit() -> ASTView {
    ASTView::Constant(ConstantView::Unit)
}

/// The binary operation that an operator stands for at a level of
/// precedence. The levels, from the loosest: `||`; `&&`; the comparisons;
/// `+` and `-`; `*` and `/`.
pub open spec fn opcode_at(op: Operator, level: nat) -> Option<BinaryOpcode> {
    if level == 1 {
        match op {
            Operator::Or => Some(BinaryOpcode::Or),
            _ => None,
        }
    } else if level == 2 {
        match op {
            Operator::And => Some(BinaryOpcode::And),
            _ => None,
        }
    } else if level == 3 {
        match op {
            Operator::Eq => Some(BinaryOpcode::Equals),
            Operator::Neq => Some(BinaryOpcode::NotEquals),
            Operator::Lt => Some(BinaryOpcode::Lower),
            Operator::Lte => Some(BinaryOpcode::LowerEquals),
            Operator::Gt => Some(BinaryOpcode::Greater),
            Operator::Gte => Some(BinaryOpcode::GreaterEquals),
            _ => None,
        }
    } else if level == 4 {
        match op {
            Operator::Sum => Some(BinaryOpcode::Add),
            Operator::Sub => Some(BinaryOpcode::Sub),
            _ => None,
        }
    } else if level == 5 {
        match op {
            Operator::Mul => Some(BinaryOpcode::Mul),
            Operator::Div => Some(BinaryOpcode::Div),
            _ => None,
        }
    } else {
        None
    }
}

/// The binary operation of a level that stands at a position, if one does.
pub open spec fn operator_at(tokens: Seq<TokenView>, pos: nat, level: nat) -> Option<BinaryOpcode> {
    match at(tokens, pos) {
        Some(TokenView::Operator(op)) => opcode_at(op, level),
        _ => None,
    }
}

/// Whether a result moved on from `pos` and stayed within the tokens.
pub open spec fn moved(tokens: Seq<TokenView>, pos: nat, next: nat) -> bool {
    pos < next <= tokens.len()
}

/// The names from `pos` up to the closing bracket, separated by commas,
/// after `names`.
pub open spec fn parameters(tokens: Seq<TokenView>, pos: nat, names: Seq<Seq<char>>) -> ParsedNames
    decreases tokens.len() - pos,
{
    if at(tokens, pos) == Some(TokenView::RoundBracketClosed) && names.len() == 0 {
        Ok((names, pos + 1))
    } else {
        match name_at(tokens, pos) {
            None => Err("Expected a parameter"@),
            Some(name) => if at(tokens, pos + 1) == Some(TokenView::RoundBracketClosed) {
                Ok((names.push(name), pos + 2))
            } else if at(tokens, pos + 1) == Some(TokenView::Comma) {
                parameters(tokens, pos + 2, names.push(name))
            } else {
                Err("Expected `,` or `)`"@)
            },
        }
    }
}

/// A sequence of statements: `a; b; c`. A `;` at the end adds the unit
/// value. A statement that ends with `}` needs no `;` behind it.
pub open spec fn sequence(tokens: Seq<TokenView>, pos: nat) -> Parsed
    decreases tokens.len() - pos, 30nat,
{
    match statement(tokens, pos) {
        Err(e) => Err(e),
        Ok((first, p)) => if !moved(tokens, pos, p) {
            Err("Unexpected token"@)
        } else if at(tokens, p) == Some(TokenView::Operator(Operator::Semicolon)) {
            if closes(tokens, p + 1) {
                Ok((ASTView::Concatenation { left: Box::new(first), right: Box::new(unit()) }, p + 1))
            } else {
                match sequence(tokens, p + 1) {
                    Err(e) => Err(e),
                    Ok((rest, q)) => Ok(
                        (ASTView::Concatenation { left: Box::new(first), right: Box::new(rest) }, q),
                    ),
                }
            }
        } else if closes(tokens, p) {
            Ok((first, p))
        } else if tokens[p - 1] == TokenView::CurlyBracketClosed {
            match sequence(tokens, p) {
                Err(e) => Err(e),
                Ok((rest, q)) => Ok(
                    (ASTView::Concatenation { left: Box::new(first), right: Box::new(rest) }, q),
                ),
            }
        } else {
            Err("Expected `;`"@)
        },
    }
}

/// A statement: a declaration of a variable, of a function or of a class,
/// or an expression. `let f = fn(..) {..}` declares the function `f`, as
/// `fn f(..) {..}` does.
pub open spec fn statement(tokens: Seq<TokenView>, pos: nat) -> Parsed
    decreases tokens.len() - pos, 29nat,
{
    match at(tokens, pos) {
        Some(TokenView::Let) => match name_at(tokens, pos + 1) {
            None => Err("Expected a name after `let`"@),
            Some(name) => if at(tokens, pos + 2) == Some(TokenView::Operator(Operator::Assign)) {
                if at(tokens, pos + 3) == Some(TokenView::Fn) {
                    function(tokens, pos + 4, name)
                } else {
                    match expression(tokens, pos + 3) {
                        Err(e) => Err(e),
                        Ok((value, p)) => Ok(
                            (
                                ASTView::Assignment(
                                    Box::new(ASTView::Definition(name)),
                                    Box::new(value),
                                ),
                                p,
                            ),
                        ),
                    }
                }
            } else {
                Ok((ASTView::Definition(name), pos + 2))
            },
        },
        Some(TokenView::Fn) => match name_at(tokens, pos + 1) {
            Some(name) => function(tokens, pos + 2, name),
            None => expression(tokens, pos),
        },
        Some(TokenView::Class) => class(tokens, pos),
        _ => expression(tokens, pos),
    }
}

/// The rest of a function with a name: the parameters in brackets, which
/// start at `pos`, and the body.
pub open spec fn function(tokens: Seq<TokenView>, pos: nat, name: Seq<char>) -> Parsed
    decreases tokens.len() - pos, 20nat,
{
    if at(tokens, pos) == Some(TokenView::RoundBracketOpen) || at(tokens, pos) == Some(
        TokenView::FunctionCallOpen,
    ) {
        match parameters(tokens, pos + 1, Seq::empty()) {
            Err(e) => Err(e),
            Ok((args, p)) => if !moved(tokens, pos, p) {
                Err("Unexpected token"@)
            } else {
                match block(tokens, p) {
                    Err(e) => Err(e),
                    Ok((body, q)) => Ok(
                        (ASTView::Function(Box::new(FunctionASTView { name, args, body })), q),
                    ),
                }
            },
        }
    } else {
        Err("Expected `(`"@)
    }
}

/// An expression, which may be an assignment `target = value`.
pub open spec fn expression(tokens: Seq<TokenView>, pos: nat) -> Parsed
    decreases tokens.len() - pos, 18nat,
{
    match binary(tokens, pos, 1) {
        Err(e) => Err(e),
        Ok((left, p)) => if !moved(tokens, pos, p) {
            Err("Unexpected token"@)
        } else if at(tokens, p) == Some(TokenView::Operator(Operator::Assign)) {
            match expression(tokens, p + 1) {
                Err(e) => Err(e),
                Ok((right, q)) => Ok((ASTView::Assignment(Box::new(left), Box::new(right)), q)),
            }
        } else {
            Ok((left, p))
        },
    }
}

/// An operand of a level of precedence followed by any number of operators
/// of that level, each with its operand; operators of one level group to
/// the left.
pub open spec fn binary(tokens: Seq<TokenView>, pos: nat, level: nat) -> Parsed
    decreases tokens.len() - pos,
        (if level <= 6 {
            17 - level
        } else {
            11
        }),
{
    if level > 5 || level == 0 {
        unary(tokens, pos)
    } else {
        match binary(tokens, pos, level + 1) {
            Err(e) => Err(e),
            Ok((left, p)) => if !moved(tokens, pos, p) {
                Err("Unexpected token"@)
            } else {
                binary_rest(tokens, p, level, left)
            },
        }
    }
}

/// The operators of a level that follow `left`, each with its operand.
pub open spec fn binary_rest(tokens: Seq<TokenView>, pos: nat, level: nat, left: ASTView) -> Parsed
    decreases tokens.len() - pos, 25nat,
{
    match operator_at(tokens, pos, level) {
        None => Ok((left, pos)),
        Some(op) => match binary(tokens, pos + 1, level + 1) {
            Err(e) => Err(e),
            Ok((right, p)) => if !moved(tokens, pos, p) {
                Err("Unexpected token"@)
            } else {
                binary_rest(tokens, p, level, ASTView::BinaryOp(Box::new(left), op, Box::new(right)))
            },
        },
    }
}

/// `!e`, or an expression with what is applied to it.
pub open spec fn unary(tokens: Seq<TokenView>, pos: nat) -> Parsed
    decreases tokens.len() - pos, 10nat,
{
    if at(tokens, pos) == Some(TokenView::Operator(Operator::Not)) {
        match unary(tokens, pos + 1) {
            Err(e) => Err(e),
            Ok((arg, p)) => Ok((ASTView::UnaryOp(UnaryOpcode::Not, Box::new(arg)), p)),
        }
    } else {
        match primary(tokens, pos) {
            Err(e) => Err(e),
            Ok((first, p)) => if !moved(tokens, pos, p) {
                Err("Unexpected token"@)
            } else {
                postfix(tokens, p, first)
            },
        }
    }
}

/// What is applied to `left`: calls `(..)`, subscripts `[..]` and
/// properties `.name`, from left to right.
pub open spec fn postfix(tokens: Seq<TokenView>, pos: nat, left: ASTView) -> Parsed
    decreases tokens.len() - pos, 25nat,
{
    match at(tokens, pos) {
        Some(TokenView::FunctionCallOpen) => match items(tokens, pos + 1, true, Seq::empty()) {
            Err(e) => Err(e),
            Ok((args, p)) => if !moved(tokens, pos, p) {
                Err("Unexpected token"@)
            } else {
                postfix(tokens, p, ASTView::FunctionCall { fun: Box::new(left), args })
            },
        },
        Some(TokenView::ListSelectionOpen) => match expression(tokens, pos + 1) {
            Err(e) => Err(e),
            Ok((index, p)) => if !moved(tokens, pos, p) {
                Err("Unexpected token"@)
            } else if at(tokens, p) == Some(TokenView::SquareBracketClosed) {
                postfix(
                    tokens,
                    p + 1,
                    ASTView::Subscript { element: Box::new(left), index: Box::new(index) },
                )
            } else {
                Err("Expected `]`"@)
            },
        },
        Some(TokenView::Dot) => match name_at(tokens, pos + 1) {
            Some(name) => postfix(
                tokens,
                pos + 2,
                ASTView::PropertyAccess { exp: Box::new(left), property: name },
            ),
            None => Err("Expected a name after `.`"@),
        },
        _ => Ok((left, pos)),
    }
}

/// The bracket that closes a list of arguments, which is `round`, or a list
/// of elements, which is not.
pub open spec fn closing(round: bool) -> TokenView {
    if round {
        TokenView::RoundBracketClosed
    } else {
        TokenView::SquareBracketClosed
    }
}

/// Expressions separated by commas up to the closing bracket, after `done`.
pub open spec fn items(tokens: Seq<TokenView>, pos: nat, round: bool, done: Seq<ASTView>) -> ParsedList
    decreases tokens.len() - pos, 26nat,
{
    if at(tokens, pos) == Some(closing(round)) && done.len() == 0 {
        Ok((done, pos + 1))
    } else {
        match expression(tokens, pos) {
            Err(e) => Err(e),
            Ok((item, p)) => if !moved(tokens, pos, p) {
                Err("Unexpected token"@)
            } else if at(tokens, p) == Some(closing(round)) {
                Ok((done.push(item), p + 1))
            } else if at(tokens, p) == Some(TokenView::Comma) {
                items(tokens, p + 1, round, done.push(item))
            } else {
                Err("Expected `,`"@)
            },
        }
    }
}

/// A literal, a name, an expression in brackets, a list, a block, a
/// conditional, a loop, or a function without a name.
pub open spec fn primary(tokens: Seq<TokenView>, pos: nat) -> Parsed
    decreases tokens.len() - pos, 8nat,
{
    match at(tokens, pos) {
        Some(TokenView::Operand(operand)) => Ok(
            (
                match operand {
                    OperandView::Null => unit(),
                    OperandView::Int(i) => ASTView::Constant(ConstantView::Int(i)),
                    OperandView::Bool(b) => ASTView::Constant(ConstantView::Bool(b)),
                    OperandView::Str(s) => ASTView::Constant(ConstantView::String(s)),
                    OperandView::Var(name) => ASTView::Identifier(name),
                },
                pos + 1,
            ),
        ),
        Some(TokenView::RoundBracketOpen) => match expression(tokens, pos + 1) {
            Err(e) => Err(e),
            Ok((inner, p)) => if at(tokens, p) == Some(TokenView::RoundBracketClosed) {
                Ok((inner, p + 1))
            } else {
                Err("Expected `)`"@)
            },
        },
        Some(TokenView::SquareBracketOpen) => match items(tokens, pos + 1, false, Seq::empty()) {
            Err(e) => Err(e),
            Ok((elements, p)) => Ok((ASTView::List { elements }, p)),
        },
        Some(TokenView::CurlyBracketOpen) => match block(tokens, pos) {
            Err(e) => Err(e),
            Ok((body, p)) => Ok((ASTView::Block(Box::new(body)), p)),
        },
        Some(TokenView::If) => conditional(tokens, pos),
        Some(TokenView::While) => match expression(tokens, pos + 1) {
            Err(e) => Err(e),
            Ok((guard, p)) => if !moved(tokens, pos, p) {
                Err("Unexpected token"@)
            } else {
                match block(tokens, p) {
                    Err(e) => Err(e),
                    Ok((body, q)) => Ok(
                        (
                            ASTView::While {
                                guard: Box::new(guard),
                                exp: Box::new(ASTView::Block(Box::new(body))),
                            },
                            q,
                        ),
                    ),
                }
            },
        },
        Some(TokenView::Fn) => if at(tokens, pos + 1) == Some(TokenView::RoundBracketOpen) {
            match parameters(tokens, pos + 2, Seq::empty()) {
                Err(e) => Err(e),
                Ok((args, p)) => if !moved(tokens, pos, p) {
                    Err("Unexpected token"@)
                } else {
                    match block(tokens, p) {
                        Err(e) => Err(e),
                        Ok((body, q)) => Ok((ASTView::Closure { args, exp: Box::new(body) }, q)),
                    }
                },
            }
        } else {
            Err("Expected `(`"@)
        },
        _ => Err("Unexpected token"@),
    }
}

/// `if c {..}`, `if c {..} else {..}` or `if c {..} else if ..`. Without
/// `else` the other branch is the unit value.
pub open spec fn conditional(tokens: Seq<TokenView>, pos: nat) -> Parsed
    decreases tokens.len() - pos, 7nat,
{
    match (if at(tokens, pos) == Some(TokenView::If) {
        expression(tokens, pos + 1)
    } else {
        Err("Expected `if`"@)
    }) {
        Err(e) => Err(e),
        Ok((condition, p)) => if !moved(tokens, pos, p) {
            Err("Unexpected token"@)
        } else {
            match block(tokens, p) {
                Err(e) => Err(e),
                Ok((then_block, q)) => if !moved(tokens, p, q) {
                    Err("Unexpected token"@)
                } else if at(tokens, q) == Some(TokenView::Else) {
                    let other = if at(tokens, q + 1) == Some(TokenView::If) {
                        conditional(tokens, q + 1)
                    } else {
                        block(tokens, q + 1)
                    };
                    match other {
                        Err(e) => Err(e),
                        Ok((else_block, r)) => Ok(
                            (
                                ASTView::Condition {
                                    exp: Box::new(condition),
                                    then_block: Box::new(then_block),
                                    else_block: Box::new(else_block),
                                },
                                r,
                            ),
                        ),
                    }
                } else {
                    Ok(
                        (
                            ASTView::Condition {
                                exp: Box::new(condition),
                                then_block: Box::new(then_block),
                                else_block: Box::new(unit()),
                            },
                            q,
                        ),
                    )
                },
            }
        },
    }
}

/// `{..}`: the statements between the braces. `{}` is the unit value.
pub open spec fn block(tokens: Seq<TokenView>, pos: nat) -> Parsed
    decreases tokens.len() - pos, 6nat,
{
    if at(tokens, pos) != Some(TokenView::CurlyBracketOpen) {
        Err("Expected `{`"@)
    } else if at(tokens, pos + 1) == Some(TokenView::CurlyBracketClosed) {
        Ok((unit(), pos + 2))
    } else {
        match sequence(tokens, pos + 1) {
            Err(e) => Err(e),
            Ok((body, p)) => if at(tokens, p) == Some(TokenView::CurlyBracketClosed) {
                Ok((body, p + 1))
            } else {
                Err("Expected `}`"@)
            },
        }
    }
}

/// The parameters of a method without the `self` that they start with.
pub open spec fn without_self(args: Seq<Seq<char>>) -> Seq<Seq<char>> {
    if args.len() > 0 && args[0] == "self"@ {
        args.drop_first()
    } else {
        args
    }
}

/// The methods of a class from `pos` up to the closing brace, after
/// `done`: each is written as a function with a name; a `;` may follow it.
pub open spec fn members(tokens: Seq<TokenView>, pos: nat, done: Seq<FunctionASTView>) -> Result<
    (Seq<FunctionASTView>, nat),
    Seq<char>,
>
    decreases tokens.len() - pos, 27nat,
{
    if at(tokens, pos) == Some(TokenView::CurlyBracketClosed) {
        Ok((done, pos + 1))
    } else if at(tokens, pos) == Some(TokenView::Fn) {
        match name_at(tokens, pos + 1) {
            None => Err("Expected a name after `fn`"@),
            Some(name) => match function(tokens, pos + 2, name) {
                Err(e) => Err(e),
                Ok((ast, p)) => if !moved(tokens, pos, p) {
                    Err("Unexpected token"@)
                } else {
                    match ast {
                        ASTView::Function(f) => {
                            let method = FunctionASTView {
                                name: f.name,
                                args: without_self(f.args),
                                body: f.body,
                            };
                            if at(tokens, p) == Some(TokenView::Operator(Operator::Semicolon)) {
                                members(tokens, p + 1, done.push(method))
                            } else {
                                members(tokens, p, done.push(method))
                            }
                        },
                        _ => Err("Unexpected token"@),
                    }
                },
            },
        }
    } else {
        Err("Expected `fn` or `}`"@)
    }
}

/// `names` followed by the fields that the first `n` trees assign through
/// `self.name = ..` and that are not yet in the list.
pub open spec fn assigned_fields_all(asts: Seq<ASTView>, n: nat, names: Seq<Seq<char>>) -> Seq<Seq<char>>
    decreases asts, n,
{
    if n == 0 || n > asts.len() {
        names
    } else {
        assigned_fields(asts[n - 1], assigned_fields_all(asts, (n - 1) as nat, names))
    }
}

/// `names` followed by the fields that the tree assigns through
/// `self.name = ..` and that are not yet in the list, in the order in which
/// they are first assigned. Functions and classes inside the tree are not
/// searched.
pub open spec fn assigned_fields(ast: ASTView, names: Seq<Seq<char>>) -> Seq<Seq<char>>
    decreases ast, 0nat,
{
    match ast {
        ASTView::Concatenation { left, right } => assigned_fields(*right, assigned_fields(*left, names)),
        ASTView::BinaryOp(arg1, _, arg2) => assigned_fields(*arg2, assigned_fields(*arg1, names)),
        ASTView::UnaryOp(_, arg) => assigned_fields(*arg, names),
        ASTView::Assignment(left, right) => {
            let inner = assigned_fields(*right, assigned_fields(*left, names));
            match *left {
                ASTView::PropertyAccess { exp, property } => if *exp == ASTView::Identifier("self"@)
                    && !inner.contains(property) {
                    inner.push(property)
                } else {
                    inner
                },
                _ => inner,
            }
        },
        ASTView::Block(exp) => assigned_fields(*exp, names),
        ASTView::Condition { exp, then_block, else_block } => assigned_fields(
            *else_block,
            assigned_fields(*then_block, assigned_fields(*exp, names)),
        ),
        ASTView::While { guard, exp } => assigned_fields(*exp, assigned_fields(*guard, names)),
        ASTView::List { elements } => assigned_fields_all(elements, elements.len(), names),
        ASTView::Subscript { element, index } => assigned_fields(*index, assigned_fields(*element, names)),
        ASTView::FunctionCall { fun, args } => assigned_fields_all(
            args,
            args.len(),
            assigned_fields(*fun, names),
        ),
        ASTView::PropertyAccess { exp, .. } => assigned_fields(*exp, names),
        _ => names,
    }
}

/// The fields that the first `n` methods assign, after `names`.
pub open spec fn method_fields(methods: Seq<FunctionASTView>, n: nat, names: Seq<Seq<char>>) -> Seq<Seq<char>>
    decreases n,
{
    if n == 0 || n > methods.len() {
        names
    } else {
        assigned_fields(methods[n - 1].body, method_fields(methods, (n - 1) as nat, names))
    }
}

/// The position of the first method called `init`, if there is one.
pub open spec fn constructor_index(methods: Seq<FunctionASTView>, n: nat) -> Option<nat>
    decreases n,
{
    if n == 0 || n > methods.len() {
        None
    } else {
        match constructor_index(methods, (n - 1) as nat) {
            Some(i) => Some(i),
            None => if methods[n - 1].name == "init"@ {
                Some((n - 1) as nat)
            } else {
                None
            },
        }
    }
}

/// The class that a name and a list of functions make: the first function
/// called `init` is the constructor, the others are the methods, and the
/// fields are those that the functions assign through `self`.
pub open spec fn make_class(name: Seq<char>, functions: Seq<FunctionASTView>) -> ClassASTView {
    let fields = method_fields(functions, functions.len(), Seq::empty());
    match constructor_index(functions, functions.len()) {
        Some(i) => ClassASTView {
            name,
            fields,
            constructor: Some(functions[i as int]),
            methods: functions.remove(i as int),
        },
        None => ClassASTView { name, fields, constructor: None, methods: functions },
    }
}

/// `class Name { fn init(self, ..) {..} fn method(self, ..) {..} }`.
pub open spec fn class(tokens: Seq<TokenView>, pos: nat) -> Parsed
    decreases tokens.len() - pos, 28nat,
{
    match name_at(tokens, pos + 1) {
        None => Err("Expected a name after `class`"@),
        Some(name) => if at(tokens, pos + 2) == Some(TokenView::CurlyBracketOpen) {
            match members(tokens, pos + 3, Seq::empty()) {
                Err(e) => Err(e),
                Ok((functions, p)) => Ok((ASTView::Class(Box::new(make_class(name, functions))), p)),
            }
        } else {
            Err("Expected `{`"@)
        },
    }
}

/// The syntax tree of a whole program. The empty program is the unit
/// value.
pub open spec fn program(tokens: Seq<TokenView>) -> Result<ASTView, Seq<char>> {
    if tokens.len() == 0 {
        Ok(unit())
    } else {
        match sequence(tokens, 0) {
            Err(e) => Err(e),
            Ok((ast, p)) => if p == tokens.len() {
                Ok(ast)
            } else {
                Err("Unexpected token"@)
            },
        }
    }
}

} // verus!
