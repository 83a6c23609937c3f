//! Running a program: compiling a syntax tree and evaluating what the
//! compiler emits, against a context and a module that outlive the program.
use vstd::prelude::*;
use vstd::string::StringExecFns;

use crate::compiler::ast::{ASTView, AST};
use crate::compiler::compiler::{compile, compiled};
use crate::compiler::context::{CompilerContext, ContextView};
use crate::compiler::error::{CompilerError, CompilerErrorView};
use crate::compiler::context::lookup_class;
use crate::compiler::laws::{
    law_declared_variable_is_found, law_simple_tree_compiles_alike, lemma_declaration_is_alike, simple,
};
use crate::runtime::laws::law_plain_expression_ignores_the_top;
use crate::runtime::pointer::Ptr;
use crate::compiler::scoping::{
    lemma_initial_bounded, lemma_same_classes_visible, lemma_same_frames_bounded, tidy,
};
use crate::intermediate::scoping::{classes_sure, lemma_classed_grows, scoped};
use crate::runtime::classes::{lemma_empty_heap_classed, settled};
use crate::grammar;
use crate::lexer::{lex, tokenize, Source};
use crate::parser::parse;
use crate::compiler::lowering::lower;

use crate::runtime::error::{ErrorView, ExpressionError};
use crate::runtime::executor::{evaluate, evaluated};
use crate::runtime::module::{Module, ModuleView};
use crate::runtime::scoping::{heap_scoped, lemma_empty_heap_scoped};
use crate::runtime::semantics::eval;
use crate::runtime::value::{VView, V};

verus! {

/// Why a program gave no value.
#[derive(Debug)]
pub enum ProgramError {
    /// The text is no program.
    SyntaxError(String),
    /// The program does not compile.
    CompilerError(CompilerError),
    /// The program failed while it ran.
    RuntimeError(ExpressionError),
}

/// The mathematical content of a [`ProgramError`].
pub enum ProgramErrorView {
    SyntaxError(Seq<char>),
    CompilerError(CompilerErrorView),
    RuntimeError(ErrorView),
}

impl View for ProgramError {
    type V = ProgramErrorView;

    open spec fn view(&self) -> ProgramErrorView {
        match self {
            ProgramError::SyntaxError(message) => ProgramErrorView::SyntaxError(message@),
            ProgramError::CompilerError(e) => ProgramErrorView::CompilerError(e@),
            ProgramError::RuntimeError(e) => ProgramErrorView::RuntimeError(e@),
        }
    }
}

/// How a program ends: with a value or an error, and with the context and
/// the module as it left them.
pub struct Run {
    pub result: Result<VView, ProgramErrorView>,
    pub context: ContextView,
    pub module: ModuleView,
}

/// What running a program amounts to: the tree is compiled, and the
/// expression is evaluated in the outermost frame, which starts at the
/// bottom of the variable stack. A program that fails declares nothing:
/// the frames of the context are as they were before, and the variable
/// stack is cut back to the length it had. The numbers that the program
/// gave to classes are not given again, and what the program wrote into the
/// heap, printed or read before it failed stays done.
pub open spec fn run(ast: ASTView, ctx: ContextView, module: ModuleView, fuel: nat) -> Run {
    let c = lower(ast, ctx);
    let undone = ContextView { frames: ctx.frames, class_count: c.context.class_count };
    match c.result {
        Err(e) => Run { result: Err(ProgramErrorView::CompilerError(e)), context: undone, module },
        Ok(exp) => {
            let r = eval(exp, module, 0, fuel);
            match r.result {
                Ok(v) => Run { result: Ok(v), context: c.context, module: r.module },
                Err(e) => Run {
                    result: Err(ProgramErrorView::RuntimeError(e)),
                    context: undone,
                    module: r.module.truncate(module.variables.len() as int),
                },
            }
        },
    }
}

/// The context and the module go together: the variable stack has as many
/// slots as the outermost frame counts, every visible variable has a slot
/// below that number, the module holds every class that is visible, and
/// every function in the heap passes the static analyses.
pub open spec fn in_step(ctx: ContextView, module: ModuleView) -> bool {
    &&& ctx.bounded()
    &&& heap_scoped(module.heap)
    &&& module.variables.len() == ctx.top().var_scope
    &&& settled(module)
    &&& ctx.visible().subset_of(module.classes.dom())
}

/// The context and the module go together before any program has run.
pub proof fn law_initially_in_step()
    ensures
        in_step(ContextView::initial(), ModuleView::empty()),
{
    lemma_initial_bounded();
    lemma_empty_heap_scoped(ModuleView::empty().heap);
    lemma_empty_heap_classed(ModuleView::empty().heap, ModuleView::empty().classes.dom());
    let ctx = ContextView::initial();
    assert forall|id: usize| !ctx.visible().contains(id) by {
        assert forall|name: Seq<char>| ctx.class_id(name) is None by {
            reveal_with_fuel(lookup_class, 2);
        }
    }
}

/// What a run that returned `res` and left the context and the module as
/// given amounts to.
pub open spec fn ran(res: Result<V, ProgramError>, context: ContextView, module: ModuleView) -> Run {
    Run {
        result: match res {
            Ok(v) => Ok(v@),
            Err(e) => Err(e@),
        },
        context,
        module,
    }
}

/// Whether the program failed because it reached for a slot that its frame
/// does not have, referred to a class that the module does not hold, or
/// assigned to what cannot be assigned.
pub open spec fn lost_its_way(result: Result<VView, ProgramErrorView>) -> bool {
    result matches Err(ProgramErrorView::RuntimeError(e)) && (e is UndefinedVariable || e is UndefinedClass
        || e is InvalidAssignmentTarget)
}

/// Whether what the compiler emits for the tree, where it emits anything,
/// passes the static analyses: of slots, for the number of slots that the
/// outermost frame counts, and of classes, for the classes that are visible,
/// with every class that the expression declares sure to be installed.
pub open spec fn sound(ast: ASTView, ctx: ContextView) -> bool {
    lower(ast, ctx).result matches Ok(exp) ==> scoped(exp, ctx.top().var_scope as nat) is Some && classes_sure(
        exp,
        ctx.visible(),
    )
}

/// Compiles a syntax tree and evaluates it.
///
/// A program whose expression passes the static analyses, as that of every
/// tidy program does, and that is run where the context and the module go
/// together never reaches for a slot that its frame does not have, nor for
/// a class that the module does not hold; and the context and the module go
/// together afterwards, whether the program yields a value or fails, so
/// that the same holds of the next program.
pub fn run_tree(ast: &AST, ctx: &mut CompilerContext, module: &mut Module, fuel: u64) -> (res: Result<
    V,
    ProgramError,
>)
    requires
        old(ctx)@.wf(),
        old(module)@.wf(),
    ensures
        ran(res, final(ctx)@, final(module)@) == run(ast@, old(ctx)@, old(module)@, fuel as nat),
        final(ctx)@.wf(),
        final(module)@.wf(),
        res matches Ok(v) ==> v@.within(final(module)@.heap),
        (tidy(ast@) || sound(ast@, old(ctx)@)) && in_step(old(ctx)@, old(module)@) ==> in_step(
            final(ctx)@,
            final(module)@,
        ) && !lost_its_way(ran(res, final(ctx)@, final(module)@).result),
{
    let mut before = ctx.duplicate();
    let len = module.variables.len();
    let exp = match compile(ast, ctx) {
        Err(e) => {
            before.class_count = ctx.class_count;
            proof {
                if old(ctx)@.bounded() {
                    lemma_same_frames_bounded(old(ctx)@, before@);
                }
                lemma_same_classes_visible(old(ctx)@, before@);
            }
            *ctx = before;
            return Err(ProgramError::CompilerError(e));
        },
        Ok(exp) => exp,
    };
    proof {
        if (tidy(ast@) || sound(ast@, old(ctx)@)) && in_step(old(ctx)@, old(module)@) {
            lemma_classed_grows(exp@, old(ctx)@.visible(), old(module)@.classes.dom());
        }
    }
    match evaluate(&exp, module, 0, fuel) {
        Ok(v) => Ok(v),
        Err(e) => {
            before.class_count = ctx.class_count;
            proof {
                if old(ctx)@.bounded() {
                    lemma_same_frames_bounded(old(ctx)@, before@);
                }
                lemma_same_classes_visible(old(ctx)@, before@);
            }
            *ctx = before;
            module.truncate(len);
            Err(ProgramError::RuntimeError(e))
        },
    }
}

/// The program `let name = e; name`.
pub open spec fn declared_then_read(name: Seq<char>, e: ASTView) -> ASTView {
    ASTView::Concatenation {
        left: Box::new(ASTView::Assignment(Box::new(ASTView::Definition(name)), Box::new(e))),
        right: Box::new(ASTView::Identifier(name)),
    }
}

/// `let name = e; name` is worth `e`, for an `e` that is made of constants,
/// names, operators, lists, subscripts, property accesses, blocks and
/// conditions and does not name the variable itself: run where the context
/// and the module go together, the two programs fail with the same error or
/// yield the same value, and print and read the same. The frame must have a
/// slot left for the variable, and the heap that `e` leaves must have room
/// for one more cell.
pub proof fn law_declared_then_read(name: Seq<char>, e: ASTView, ctx: ContextView, module: ModuleView, fuel: nat)
    requires
        ctx.wf(),
        in_step(ctx, module),
        ctx.can_define(),
        simple(e, name),
        run(e, ctx, module, fuel).module.heap.values.len() <= usize::MAX,
    ensures
        ({
            let one = run(declared_then_read(name, e), ctx, module, fuel);
            let two = run(e, ctx, module, fuel);
            &&& match two.result {
                Err(error) => one.result == Err::<VView, ProgramErrorView>(error),
                Ok(v) => one.result matches Ok(w) && w.value(one.module.heap) == v.value(two.module.heap),
            }
            &&& one.module.output == two.module.output
            &&& one.module.input == two.module.input
            &&& one.module.classes == two.module.classes
        }),
{
    let declared = ctx.define_variable(name).0;
    let scope = ctx.top().var_scope;
    lemma_declaration_is_alike(ctx, name);
    law_simple_tree_compiles_alike(e, ctx, declared, name);
    law_declared_variable_is_found(ctx, name);
    reveal_with_fuel(lower, 3);
    match lower(e, ctx).result {
        Err(_) => {},
        Ok(exp) => {
            law_plain_expression_ignores_the_top(exp, module, 0, fuel, Ptr::unit());
            reveal_with_fuel(eval, 4);
        },
    }
}

/// What running a program text amounts to: the text is split into tokens,
/// the tokens are read as a syntax tree, and the tree is run. Where the
/// text is no program, the context and the module are left alone.
pub open spec fn run_text(text: Seq<char>, ctx: ContextView, module: ModuleView, fuel: nat) -> Run {
    match lex(text, 0, false) {
        Err(e) => Run { result: Err(ProgramErrorView::SyntaxError(e)), context: ctx, module },
        Ok(tokens) => match grammar::program(tokens) {
            Err(e) => Run { result: Err(ProgramErrorView::SyntaxError(e)), context: ctx, module },
            Ok(ast) => run(ast, ctx, module, fuel),
        },
    }
}

/// Whether the text is a program with the given syntax tree.
pub open spec fn reads_as(text: Seq<char>, ast: ASTView) -> bool {
    lex(text, 0, false) matches Ok(tokens) && grammar::program(tokens) == Ok::<ASTView, Seq<char>>(ast)
}

/// The same of program texts: where one text reads as `let name = e; name`
/// and another as `e`, for such an `e`, the two fail with the same error or
/// yield the same value, and print and read the same.
pub proof fn law_declared_then_read_as_text(
    first: Seq<char>,
    second: Seq<char>,
    name: Seq<char>,
    e: ASTView,
    ctx: ContextView,
    module: ModuleView,
    fuel: nat,
)
    requires
        reads_as(first, declared_then_read(name, e)),
        reads_as(second, e),
        ctx.wf(),
        in_step(ctx, module),
        ctx.can_define(),
        simple(e, name),
        run_text(second, ctx, module, fuel).module.heap.values.len() <= usize::MAX,
    ensures
        ({
            let one = run_text(first, ctx, module, fuel);
            let two = run_text(second, ctx, module, fuel);
            &&& match two.result {
                Err(error) => one.result == Err::<VView, ProgramErrorView>(error),
                Ok(v) => one.result matches Ok(w) && w.value(one.module.heap) == v.value(two.module.heap),
            }
            &&& one.module.output == two.module.output
            &&& one.module.input == two.module.input
            &&& one.module.classes == two.module.classes
        }),
{
    law_declared_then_read(name, e, ctx, module, fuel);
}

/// Runs a program text.
///
/// Run where the context and the module go together, as they do before any
/// program has run, a program never reaches for a slot that its frame does
/// not have, nor for a class that the module does not hold; and the context
/// and the module go together afterwards, whether the program yields a
/// value or fails, so that the same holds of the next program.
pub fn run_program(line: String, ctx: &mut CompilerContext, module: &mut Module, fuel: u64) -> (res: Result<
    V,
    ProgramError,
>)
    requires
        old(ctx)@.wf(),
        old(module)@.wf(),
    ensures
        ran(res, final(ctx)@, final(module)@) == run_text(line@, old(ctx)@, old(module)@, fuel as nat),
        final(ctx)@.wf(),
        final(module)@.wf(),
        res matches Ok(v) ==> v@.within(final(module)@.heap),
        in_step(old(ctx)@, old(module)@) ==> in_step(final(ctx)@, final(module)@) && !lost_its_way(
            ran(res, final(ctx)@, final(module)@).result,
        ),
{
    let tokens = match tokenize(line) {
        Err(e) => {
            return Err(ProgramError::SyntaxError(e.msg));
        },
        Ok(tokens) => tokens,
    };
    let ast = match parse(&tokens) {
        Err(e) => {
            return Err(ProgramError::SyntaxError(e.msg));
        },
        Ok(ast) => ast,
    };
    run_tree(&ast, ctx, module, fuel)
}

/// White space as Unicode defines it: the characters that trimming a text
/// takes off its ends.
pub open spec fn is_whitespace(c: char) -> bool {
    ||| '\u{9}' <= c <= '\u{d}'
    ||| c == ' '
    ||| c == '\u{85}'
    ||| c == '\u{a0}'
    ||| c == '\u{1680}'
    ||| '\u{2000}' <= c <= '\u{200a}'
    ||| c == '\u{2028}'
    ||| c == '\u{2029}'
    ||| c == '\u{202f}'
    ||| c == '\u{205f}'
    ||| c == '\u{3000}'
}

/// Whether a character is white space.
pub fn is_whitespace_char(c: char) -> (res: bool)
    ensures
        res == is_whitespace(c),
{
    (c >= '\u{9}' && c <= '\u{d}') || c == ' ' || c == '\u{85}' || c == '\u{a0}' || c == '\u{1680}' || (c
        >= '\u{2000}' && c <= '\u{200a}') || c == '\u{2028}' || c == '\u{2029}' || c == '\u{202f}' || c
        == '\u{205f}' || c == '\u{3000}'
}

/// The last character of the first `n` that is not white space, if there is
/// one.
pub open spec fn last_visible(text: Seq<char>, n: nat) -> Option<char>
    decreases n,
{
    if n == 0 || n > text.len() {
        None
    } else if is_whitespace(text[n - 1]) {
        last_visible(text, (n - 1) as nat)
    } else {
        Some(text[n - 1])
    }
}

/// How many more times `open` occurs among the first `n` characters than
/// `close`.
pub open spec fn surplus(text: Seq<char>, n: nat, open: char, close: char) -> int
    decreases n,
{
    if n == 0 || n > text.len() {
        0
    } else {
        surplus(text, (n - 1) as nat, open, close) + (if text[n - 1] == open {
            1int
        } else if text[n - 1] == close {
            -1int
        } else {
            0int
        })
    }
}

/// Whether a text that was typed so far is unfinished: without the white
/// space at its end it ends with `.`, or one kind of bracket is opened more
/// often than it is closed.
pub open spec fn unfinished(text: Seq<char>) -> bool {
    ||| last_visible(text, text.len()) == Some('.')
    ||| surplus(text, text.len(), '(', ')') > 0
    ||| surplus(text, text.len(), '[', ']') > 0
    ||| surplus(text, text.len(), '{', '}') > 0
}

/// Whether a prompt should go on reading before it runs what was typed.
pub fn continue_reading(text: &str) -> (res: bool)
    ensures
        res == unfinished(text@),
{
    let source = Source::new(text);
    let len = source.len();
    let mut round: i128 = 0;
    let mut square: i128 = 0;
    let mut curly: i128 = 0;
    let mut last: Option<char> = None;
    let mut i: usize = 0;
    while i < len
        invariant
            i <= len,
            source.wf(),
            source@ == text@,
            len == text@.len(),
            round == surplus(text@, i as nat, '(', ')'),
            square == surplus(text@, i as nat, '[', ']'),
            curly == surplus(text@, i as nat, '{', '}'),
            -(i as int) <= round <= i,
            -(i as int) <= square <= i,
            -(i as int) <= curly <= i,
            last == last_visible(text@, i as nat),
        decreases len - i,
    {
        let c = source.char_at(i);
        if c == '(' {
            round = round + 1;
        } else if c == ')' {
            round = round - 1;
        } else if c == '[' {
            square = square + 1;
        } else if c == ']' {
            square = square - 1;
        } else if c == '{' {
            curly = curly + 1;
        } else if c == '}' {
            curly = curly - 1;
        }
        if !is_whitespace_char(c) {
            last = Some(c);
        }
        i += 1;
    }
    let ends_with_dot = match last {
        Some(c) => c == '.',
        None => false,
    };
    ends_with_dot || round > 0 || square > 0 || curly > 0
}

impl ProgramErrorView {
    /// The message that reports the error.
    pub open spec fn message(self) -> Seq<char> {
        match self {
            ProgramErrorView::SyntaxError(e) => "SyntaxError: "@ + e,
            ProgramErrorView::CompilerError(e) => "CompilerError: "@ + e.message(),
            ProgramErrorView::RuntimeError(e) => e.message(),
        }
    }
}

impl ProgramError {
    /// The message that reports the error.
    pub fn to_string(&self) -> (text: String)
        ensures
            text@ == self@.message(),
    {
        match self {
            ProgramError::SyntaxError(e) => {
                let mut text = String::from_str("SyntaxError: ");
                text.append(e.as_str());
                text
            },
            ProgramError::CompilerError(e) => {
                let mut text = String::from_str("CompilerError: ");
                text.append(e.to_string().as_str());
                text
            },
            ProgramError::RuntimeError(e) => e.to_string(),
        }
    }
}

} // verus!
