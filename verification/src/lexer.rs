//! The lexer: from source text to tokens.
use vstd::prelude::*;
use vstd::string::{StrSliceExecFns, StringExecFns};

use crate::token::{Operand, OperandView, Operator, Token, TokenView};

verus! {

/// Why a text could not be split into tokens.
#[derive(Debug, PartialEq)]
pub struct LexicalError {
    pub msg: String,
}

impl View for LexicalError {
    type V = Seq<char>;

    open spec fn view(&self) -> Seq<char> {
        self.msg@
    }
}

/// Blank, tab or end of line.
pub open spec fn is_space(c: char) -> bool {
    c == ' ' || c == '\n' || c == '\t' || c == '\r'
}

/// A decimal digit.
pub open spec fn is_digit(c: char) -> bool {
    '0' <= c <= '9'
}

/// A character that a name or a keyword is made of.
pub open spec fn is_word_char(c: char) -> bool {
    ('a' <= c <= 'z') || ('A' <= c <= 'Z') || c == '_' || is_digit(c)
}

/// Where the word that starts at `pos` ends.
pub open spec fn word_end(chars: Seq<char>, pos: nat) -> nat
    decreases chars.len() - pos,
{
    if pos < chars.len() && is_word_char(chars[pos as int]) {
        word_end(chars, pos + 1)
    } else {
        pos
    }
}

/// Where the run of digits that starts at `pos` ends.
pub open spec fn digits_end(chars: Seq<char>, pos: nat) -> nat
    decreases chars.len() - pos,
{
    if pos < chars.len() && is_digit(chars[pos as int]) {
        digits_end(chars, pos + 1)
    } else {
        pos
    }
}

/// The number that the digits from `from` up to `to` write.
pub open spec fn number(chars: Seq<char>, from: nat, to: nat) -> int
    decreases to,
{
    if to <= from {
        0
    } else {
        number(chars, from, (to - 1) as nat) * 10 + (chars[to - 1] as u32 - '0' as u32)
    }
}

/// The token that a word is: a keyword, a literal, or else a name.
pub open spec fn word_token(word: Seq<char>) -> TokenView {
    if word == "true"@ {
        TokenView::Operand(OperandView::Bool(true))
    } else if word == "false"@ {
        TokenView::Operand(OperandView::Bool(false))
    } else if word == "unit"@ || word == "null"@ {
        TokenView::Operand(OperandView::Null)
    } else if word == "let"@ {
        TokenView::Let
    } else if word == "fn"@ {
        TokenView::Fn
    } else if word == "while"@ {
        TokenView::While
    } else if word == "if"@ {
        TokenView::If
    } else if word == "else"@ {
        TokenView::Else
    } else if word == "class"@ {
        TokenView::Class
    } else {
        TokenView::Operand(OperandView::Var(word))
    }
}

/// The content of the string literal whose text goes on at `pos`, after
/// `content`, and where the text goes on behind the closing quote; nothing
/// where the literal is not closed. `\n` stands for an end of line and `\"`
/// for a quote; any other backslash stands for itself.
pub open spec fn string_end(chars: Seq<char>, pos: nat, content: Seq<char>) -> Option<(Seq<char>, nat)>
    decreases chars.len() - pos,
{
    if pos >= chars.len() {
        None
    } else if chars[pos as int] == '"' {
        Some((content, pos + 1))
    } else if chars[pos as int] == '\\' && pos + 1 < chars.len() && chars[pos as int + 1] == 'n' {
        string_end(chars, pos + 2, content.push('\n'))
    } else if chars[pos as int] == '\\' && pos + 1 < chars.len() && chars[pos as int + 1] == '"' {
        string_end(chars, pos + 2, content.push('"'))
    } else {
        string_end(chars, pos + 1, content.push(chars[pos as int]))
    }
}

/// Where the text goes on behind the line that `pos` is in.
pub open spec fn line_end(chars: Seq<char>, pos: nat) -> nat
    decreases chars.len() - pos,
{
    if pos >= chars.len() {
        pos
    } else if chars[pos as int] == '\n' {
        pos + 1
    } else {
        line_end(chars, pos + 1)
    }
}

/// Where the text goes on behind the next `*/`; nothing where there is
/// none.
pub open spec fn comment_end(chars: Seq<char>, pos: nat) -> Option<nat>
    decreases chars.len() - pos,
{
    if pos + 1 >= chars.len() {
        None
    } else if chars[pos as int] == '*' && chars[pos as int + 1] == '/' {
        Some(pos + 2)
    } else {
        comment_end(chars, pos + 1)
    }
}

/// What the lexer reads at `pos`: a token or nothing (blank space, a
/// comment), and where the text goes on; or why the text is no program.
/// `callable` says whether the token before was something that can be
/// called or indexed: then `(` starts a call and `[` a subscript, and `-`
/// is an operator even before a digit.
pub open spec fn step(chars: Seq<char>, pos: nat, callable: bool) -> Result<(Option<TokenView>, nat), Seq<char>>
    recommends
        pos < chars.len(),
{
    let c = chars[pos as int];
    let next = if pos + 1 < chars.len() {
        Some(chars[pos as int + 1])
    } else {
        None
    };
    if is_space(c) {
        Ok((None, pos + 1))
    } else if c == '(' {
        Ok((Some(if callable { TokenView::FunctionCallOpen } else { TokenView::RoundBracketOpen }), pos + 1))
    } else if c == '[' {
        Ok((Some(if callable { TokenView::ListSelectionOpen } else { TokenView::SquareBracketOpen }), pos + 1))
    } else if c == ')' {
        Ok((Some(TokenView::RoundBracketClosed), pos + 1))
    } else if c == ']' {
        Ok((Some(TokenView::SquareBracketClosed), pos + 1))
    } else if c == '{' {
        Ok((Some(TokenView::CurlyBracketOpen), pos + 1))
    } else if c == '}' {
        Ok((Some(TokenView::CurlyBracketClosed), pos + 1))
    } else if c == ',' {
        Ok((Some(TokenView::Comma), pos + 1))
    } else if c == '.' {
        Ok((Some(TokenView::Dot), pos + 1))
    } else if c == ';' {
        Ok((Some(TokenView::Operator(Operator::Semicolon)), pos + 1))
    } else if c == '+' {
        Ok((Some(TokenView::Operator(Operator::Sum)), pos + 1))
    } else if c == '*' {
        Ok((Some(TokenView::Operator(Operator::Mul)), pos + 1))
    } else if c == '-' {
        if !callable && next is Some && is_digit(next->Some_0) {
            let end = digits_end(chars, pos + 1);
            let value = -number(chars, pos + 1, end);
            if value < i32::MIN {
                Err("Integer out of range"@)
            } else {
                Ok((Some(TokenView::Operand(OperandView::Int(value as i32))), end))
            }
        } else {
            Ok((Some(TokenView::Operator(Operator::Sub)), pos + 1))
        }
    } else if c == '=' {
        if next == Some('=') {
            Ok((Some(TokenView::Operator(Operator::Eq)), pos + 2))
        } else {
            Ok((Some(TokenView::Operator(Operator::Assign)), pos + 1))
        }
    } else if c == '!' {
        if next == Some('=') {
            Ok((Some(TokenView::Operator(Operator::Neq)), pos + 2))
        } else {
            Ok((Some(TokenView::Operator(Operator::Not)), pos + 1))
        }
    } else if c == '<' {
        if next == Some('=') {
            Ok((Some(TokenView::Operator(Operator::Lte)), pos + 2))
        } else {
            Ok((Some(TokenView::Operator(Operator::Lt)), pos + 1))
        }
    } else if c == '>' {
        if next == Some('=') {
            Ok((Some(TokenView::Operator(Operator::Gte)), pos + 2))
        } else {
            Ok((Some(TokenView::Operator(Operator::Gt)), pos + 1))
        }
    } else if c == '&' {
        if next == Some('&') {
            Ok((Some(TokenView::Operator(Operator::And)), pos + 2))
        } else {
            Err("Unexpected character `&`"@)
        }
    } else if c == '|' {
        if next == Some('|') {
            Ok((Some(TokenView::Operator(Operator::Or)), pos + 2))
        } else {
            Err("Unexpected character `|`"@)
        }
    } else if c == '"' {
        match string_end(chars, pos + 1, Seq::empty()) {
            Some((content, end)) => Ok((Some(TokenView::Operand(OperandView::Str(content))), end)),
            None => Err("Unclosed string"@),
        }
    } else if c == '/' {
        if next == Some('/') {
            Ok((None, line_end(chars, pos + 2)))
        } else if next == Some('*') {
            match comment_end(chars, pos + 2) {
                Some(end) => Ok((None, end)),
                None => Err("Unclosed comment"@),
            }
        } else {
            Ok((Some(TokenView::Operator(Operator::Div)), pos + 1))
        }
    } else if is_digit(c) {
        let end = digits_end(chars, pos);
        let value = number(chars, pos, end);
        if value > i32::MAX {
            Err("Integer out of range"@)
        } else {
            Ok((Some(TokenView::Operand(OperandView::Int(value as i32))), end))
        }
    } else if is_word_char(c) {
        let end = word_end(chars, pos);
        Ok((Some(word_token(chars.subrange(pos as int, end as int))), end))
    } else {
        Err("Unexpected character"@)
    }
}

/// The tokens of the text from `pos` on, in the order of the text.
pub open spec fn lex(chars: Seq<char>, pos: nat, callable: bool) -> Result<Seq<TokenView>, Seq<char>>
    decreases chars.len() - pos,
{
    if pos >= chars.len() {
        Ok(Seq::empty())
    } else {
        match step(chars, pos, callable) {
            Err(e) => Err(e),
            Ok((token, next)) => if next <= pos || next > chars.len() {
                Err("Unexpected character"@)
            } else {
                match token {
                    None => lex(chars, next, callable),
                    Some(t) => match lex(chars, next, t.is_callable()) {
                        Err(e) => Err(e),
                        Ok(rest) => Ok(seq![t] + rest),
                    },
                }
            },
        }
    }
}

/// The views of a list of tokens, in order.
pub open spec fn token_views(tokens: Seq<Token>) -> Seq<TokenView> {
    tokens.map_values(|t: Token| t@)
}

/// The views of a list of tokens that holds the last token of the text
/// first, in the order of the text.
pub open spec fn in_text_order(tokens: Seq<Token>) -> Seq<TokenView> {
    Seq::new(tokens.len(), |i: int| tokens[tokens.len() - 1 - i]@)
}

/// A list of tokens seen in the order of the text is the list turned round,
/// and the other way about.
pub proof fn lemma_in_text_order(tokens: Seq<Token>)
    ensures
        in_text_order(tokens) == token_views(tokens).reverse(),
        token_views(tokens) == in_text_order(tokens).reverse(),
{
    assert(in_text_order(tokens) =~= token_views(tokens).reverse());
    assert(token_views(tokens) =~= in_text_order(tokens).reverse());
}

/// The digits of a number never make it smaller.
pub proof fn lemma_number_grows(chars: Seq<char>, from: nat, i: nat, to: nat)
    requires
        from <= i <= to <= chars.len(),
        forall|j: int| from <= j < to ==> is_digit(chars[j]),
    ensures
        0 <= number(chars, from, i) <= number(chars, from, to),
    decreases to,
{
    if i < to {
        lemma_number_grows(chars, from, i, (to - 1) as nat);
        assert(is_digit(chars[to - 1]));
    } else if from < i {
        lemma_number_grows(chars, from, (i - 1) as nat, (i - 1) as nat);
        assert(is_digit(chars[i - 1]));
    }
}

/// Every character up to the end of a run of digits is a digit, and the
/// run ends within the text.
pub proof fn lemma_digits_end(chars: Seq<char>, pos: nat)
    requires
        pos <= chars.len(),
    ensures
        pos <= digits_end(chars, pos) <= chars.len(),
        forall|j: int| pos <= j < digits_end(chars, pos) ==> is_digit(chars[j]),
        digits_end(chars, pos) < chars.len() ==> !is_digit(chars[digits_end(chars, pos) as int]),
    decreases chars.len() - pos,
{
    if pos < chars.len() && is_digit(chars[pos as int]) {
        lemma_digits_end(chars, pos + 1);
    }
}

/// A text with what is known of it: whether every character of it is one
/// byte long, in which case a character is found at once.
pub struct Source<'a> {
    pub text: &'a str,
    pub ascii: bool,
}

impl<'a> View for Source<'a> {
    type V = Seq<char>;

    open spec fn view(&self) -> Seq<char> {
        self.text@
    }
}

impl<'a> Source<'a> {
    /// What is recorded of the text is true of it.
    pub open spec fn wf(&self) -> bool {
        self.ascii ==> self.text.is_ascii()
    }

    /// Looks at a text.
    pub fn new(text: &'a str) -> (source: Source<'a>)
        ensures
            source.wf(),
            source@ == text@,
    {
        Source { text, ascii: text.is_ascii() }
    }

    /// The number of characters.
    pub fn len(&self) -> (len: usize)
        requires
            self.wf(),
        ensures
            len == self@.len(),
    {
        if self.ascii {
            let bytes = self.text.as_bytes();
            proof {
                vstd::string::is_ascii_spec_bytes(self.text);
                assert(bytes@.len() == self@.len());
            }
            bytes.len()
        } else {
            self.text.unicode_len()
        }
    }

    /// The character at a position.
    pub fn char_at(&self, i: usize) -> (c: char)
        requires
            self.wf(),
            i < self@.len(),
        ensures
            c == self@[i as int],
    {
        if self.ascii {
            let b = self.text.get_ascii(i);
            proof {
                let c = self@[i as int];
                assert('\0' <= c <= '\u{7f}');
            }
            b as char
        } else {
            self.text.get_char(i)
        }
    }

    /// The characters from one position up to another.
    pub fn slice(&self, from: usize, to: usize) -> (part: &'a str)
        requires
            self.wf(),
            from <= to <= self@.len(),
        ensures
            part@ == self@.subrange(from as int, to as int),
    {
        if self.ascii {
            self.text.substring_ascii(from, to)
        } else {
            self.text.substring_char(from, to)
        }
    }
}

fn is_digit_char(c: char) -> (res: bool)
    ensures
        res == is_digit(c),
{
    c >= '0' && c <= '9'
}

fn is_word(c: char) -> (res: bool)
    ensures
        res == is_word_char(c),
{
    (c >= 'a' && c <= 'z') || (c >= 'A' && c <= 'Z') || c == '_' || is_digit_char(c)
}

fn is_blank(c: char) -> (res: bool)
    ensures
        res == is_space(c),
{
    c == ' ' || c == '\n' || c == '\t' || c == '\r'
}

/// Finds where the word that starts at `pos` ends.
fn scan_word(source: &Source, len: usize, pos: usize) -> (end: usize)
    requires
        source.wf(),
        len == source@.len(),
        pos <= len,
    ensures
        end == word_end(source@, pos as nat),
        pos <= end <= len,
        pos < len && is_word_char(source@[pos as int]) ==> pos < end,
{
    let mut i: usize = pos;
    while i < len && is_word(source.char_at(i))
        invariant
            pos <= i <= len,
            source.wf(),
            len == source@.len(),
            word_end(source@, pos as nat) == word_end(source@, i as nat),
            pos < len && is_word_char(source@[pos as int]) && i == pos ==> is_word_char(source@[i as int]),
        decreases len - i,
    {
        i += 1;
    }
    i
}

/// Reads the run of digits that starts at `pos`: where it ends, and the
/// number it writes if that is at most `limit`.
fn scan_number(source: &Source, len: usize, pos: usize, limit: u64) -> (res: (usize, Option<u64>))
    requires
        source.wf(),
        len == source@.len(),
        pos <= len,
        limit <= 0x8000_0000,
    ensures
        res.0 == digits_end(source@, pos as nat),
        pos <= res.0 <= len,
        pos < len && is_digit(source@[pos as int]) ==> pos < res.0,
        match res.1 {
            Some(value) => value == number(source@, pos as nat, res.0 as nat) && value <= limit,
            None => number(source@, pos as nat, res.0 as nat) > limit,
        },
{
    let mut i: usize = pos;
    let mut value: u64 = 0;
    let mut fits = true;
    proof {
        lemma_digits_end(source@, pos as nat);
    }
    while i < len && is_digit_char(source.char_at(i))
        invariant
            pos <= i <= len,
            source.wf(),
            len == source@.len(),
            limit <= 0x8000_0000,
            i <= digits_end(source@, pos as nat) <= len,
            digits_end(source@, pos as nat) == digits_end(source@, i as nat),
            forall|j: int| pos <= j < digits_end(source@, pos as nat) ==> is_digit(source@[j]),
            fits ==> value == number(source@, pos as nat, i as nat) && value <= limit,
            !fits ==> number(source@, pos as nat, i as nat) > limit,
        decreases len - i,
    {
        let c = source.char_at(i);
        let digit: u64 = (c as u32 - '0' as u32) as u64;
        proof {
            lemma_digits_end(source@, (i + 1) as nat);
            lemma_number_grows(source@, pos as nat, i as nat, (i + 1) as nat);
        }
        if fits {
            value = value * 10 + digit;
            if value > limit {
                fits = false;
            }
        }
        i += 1;
    }
    if fits {
        (i, Some(value))
    } else {
        (i, None)
    }
}

/// Reads the string literal whose text starts at `pos`, behind the opening
/// quote.
fn scan_string(source: &Source, len: usize, pos: usize) -> (res: Option<(String, usize)>)
    requires
        source.wf(),
        len == source@.len(),
        pos <= len,
    ensures
        match res {
            Some((content, end)) => string_end(source@, pos as nat, Seq::empty()) == Some(
                (content@, end as nat),
            ) && pos < end <= len,
            None => string_end(source@, pos as nat, Seq::empty()) is None,
        },
{
    let mut content = String::new();
    let mut i: usize = pos;
    proof {
        reveal_strlit("\n");
        reveal_strlit("\"");
    }
    while i < len
        invariant
            pos <= i <= len,
            source.wf(),
            len == source@.len(),
            "\n"@ == seq!['\n'],
            "\""@ == seq!['"'],
            string_end(source@, pos as nat, Seq::empty()) == string_end(source@, i as nat, content@),
        decreases len - i,
    {
        let c = source.char_at(i);
        if c == '"' {
            return Some((content, i + 1));
        }
        let ghost before = content@;
        if c == '\\' && i + 1 < len && source.char_at(i + 1) == 'n' {
            content.append("\n");
            proof {
                assert(content@ =~= before.push('\n'));
            }
            i += 2;
        } else if c == '\\' && i + 1 < len && source.char_at(i + 1) == '"' {
            content.append("\"");
            proof {
                assert(content@ =~= before.push('"'));
            }
            i += 2;
        } else {
            content.append(source.slice(i, i + 1));
            proof {
                assert(content@ =~= before.push(c));
            }
            i += 1;
        }
    }
    None
}

/// Finds where the text goes on behind the line that `pos` is in.
fn scan_line(source: &Source, len: usize, pos: usize) -> (end: usize)
    requires
        source.wf(),
        len == source@.len(),
        pos <= len,
    ensures
        end == line_end(source@, pos as nat),
        pos <= end <= len,
{
    let mut i: usize = pos;
    while i < len
        invariant
            pos <= i <= len,
            source.wf(),
            len == source@.len(),
            line_end(source@, pos as nat) == line_end(source@, i as nat),
        decreases len - i,
    {
        if source.char_at(i) == '\n' {
            return i + 1;
        }
        i += 1;
    }
    i
}

/// Finds where the text goes on behind the next `*/`.
fn scan_comment(source: &Source, len: usize, pos: usize) -> (res: Option<usize>)
    requires
        source.wf(),
        len == source@.len(),
        pos <= len,
    ensures
        match res {
            Some(end) => comment_end(source@, pos as nat) == Some(end as nat) && pos < end <= len,
            None => comment_end(source@, pos as nat) is None,
        },
{
    let mut i: usize = pos;
    while i < len && i + 1 < len
        invariant
            pos <= i <= len,
            source.wf(),
            len == source@.len(),
            comment_end(source@, pos as nat) == comment_end(source@, i as nat),
        decreases len - i,
    {
        if source.char_at(i) == '*' && source.char_at(i + 1) == '/' {
            return Some(i + 2);
        }
        i += 1;
    }
    None
}

/// Whether a word is the given keyword.
fn is_keyword(word: &String, keyword: &str) -> (res: bool)
    ensures
        res == (word@ == keyword@),
{
    let other = String::from_str(keyword);
    *word == other
}

/// The token that a word is.
fn make_token(word: String) -> (token: Token)
    ensures
        token@ == word_token(word@),
{
    if is_keyword(&word, "true") {
        Token::Operand(Operand::Bool(true))
    } else if is_keyword(&word, "false") {
        Token::Operand(Operand::Bool(false))
    } else if is_keyword(&word, "unit") || is_keyword(&word, "null") {
        Token::Operand(Operand::Null)
    } else if is_keyword(&word, "let") {
        Token::Let
    } else if is_keyword(&word, "fn") {
        Token::Fn
    } else if is_keyword(&word, "while") {
        Token::While
    } else if is_keyword(&word, "if") {
        Token::If
    } else if is_keyword(&word, "else") {
        Token::Else
    } else if is_keyword(&word, "class") {
        Token::Class
    } else {
        Token::Operand(Operand::Var(word))
    }
}

/// What `next_token` found, seen as the lexer's step.
pub open spec fn stepped(res: Result<(Option<Token>, usize), LexicalError>) -> Result<
    (Option<TokenView>, nat),
    Seq<char>,
> {
    match res {
        Ok((token, next)) => Ok(
            (
                match token {
                    Some(t) => Some(t@),
                    None => None,
                },
                next as nat,
            ),
        ),
        Err(e) => Err(e@),
    }
}

fn failure(msg: &str) -> (res: Result<(Option<Token>, usize), LexicalError>)
    ensures
        stepped(res) == Err::<(Option<TokenView>, nat), Seq<char>>(msg@),
{
    Err(LexicalError { msg: String::from_str(msg) })
}

/// Reads what stands at `pos`: a token, blank space or a comment.
fn next_token(source: &Source, len: usize, pos: usize, callable: bool) -> (res: Result<
    (Option<Token>, usize),
    LexicalError,
>)
    requires
        source.wf(),
        len == source@.len(),
        pos < len,
    ensures
        stepped(res) == step(source@, pos as nat, callable),
        res matches Ok((_, next)) ==> pos < next <= len,
{
    let c = source.char_at(pos);
    let next: Option<char> = if pos + 1 < len {
        Some(source.char_at(pos + 1))
    } else {
        None
    };
    let followed_by_equals = match next {
        Some(n) => n == '=',
        None => false,
    };
    if is_blank(c) {
        Ok((None, pos + 1))
    } else if c == '(' {
        Ok((Some(if callable { Token::FunctionCallOpen } else { Token::RoundBracketOpen }), pos + 1))
    } else if c == '[' {
        Ok((Some(if callable { Token::ListSelectionOpen } else { Token::SquareBracketOpen }), pos + 1))
    } else if c == ')' {
        Ok((Some(Token::RoundBracketClosed), pos + 1))
    } else if c == ']' {
        Ok((Some(Token::SquareBracketClosed), pos + 1))
    } else if c == '{' {
        Ok((Some(Token::CurlyBracketOpen), pos + 1))
    } else if c == '}' {
        Ok((Some(Token::CurlyBracketClosed), pos + 1))
    } else if c == ',' {
        Ok((Some(Token::Comma), pos + 1))
    } else if c == '.' {
        Ok((Some(Token::Dot), pos + 1))
    } else if c == ';' {
        Ok((Some(Token::Operator(Operator::Semicolon)), pos + 1))
    } else if c == '+' {
        Ok((Some(Token::Operator(Operator::Sum)), pos + 1))
    } else if c == '*' {
        Ok((Some(Token::Operator(Operator::Mul)), pos + 1))
    } else if c == '-' {
        let negative = match next {
            Some(n) => !callable && is_digit_char(n),
            None => false,
        };
        if negative {
            let (end, value) = scan_number(source, len, pos + 1, 0x8000_0000);
            match value {
                Some(v) => Ok((Some(Token::Operand(Operand::Int((-(v as i64)) as i32))), end)),
                None => failure("Integer out of range"),
            }
        } else {
            Ok((Some(Token::Operator(Operator::Sub)), pos + 1))
        }
    } else if c == '=' {
        if followed_by_equals {
            Ok((Some(Token::Operator(Operator::Eq)), pos + 2))
        } else {
            Ok((Some(Token::Operator(Operator::Assign)), pos + 1))
        }
    } else if c == '!' {
        if followed_by_equals {
            Ok((Some(Token::Operator(Operator::Neq)), pos + 2))
        } else {
            Ok((Some(Token::Operator(Operator::Not)), pos + 1))
        }
    } else if c == '<' {
        if followed_by_equals {
            Ok((Some(Token::Operator(Operator::Lte)), pos + 2))
        } else {
            Ok((Some(Token::Operator(Operator::Lt)), pos + 1))
        }
    } else if c == '>' {
        if followed_by_equals {
            Ok((Some(Token::Operator(Operator::Gte)), pos + 2))
        } else {
            Ok((Some(Token::Operator(Operator::Gt)), pos + 1))
        }
    } else if c == '&' {
        let doubled = match next {
            Some(n) => n == '&',
            None => false,
        };
        if doubled {
            Ok((Some(Token::Operator(Operator::And)), pos + 2))
        } else {
            failure("Unexpected character `&`")
        }
    } else if c == '|' {
        let doubled = match next {
            Some(n) => n == '|',
            None => false,
        };
        if doubled {
            Ok((Some(Token::Operator(Operator::Or)), pos + 2))
        } else {
            failure("Unexpected character `|`")
        }
    } else if c == '"' {
        match scan_string(source, len, pos + 1) {
            Some((content, end)) => Ok((Some(Token::Operand(Operand::Str(content))), end)),
            None => failure("Unclosed string"),
        }
    } else if c == '/' {
        let slash = match next {
            Some(n) => n == '/',
            None => false,
        };
        let star = match next {
            Some(n) => n == '*',
            None => false,
        };
        if slash {
            Ok((None, scan_line(source, len, pos + 2)))
        } else if star {
            match scan_comment(source, len, pos + 2) {
                Some(end) => Ok((None, end)),
                None => failure("Unclosed comment"),
            }
        } else {
            Ok((Some(Token::Operator(Operator::Div)), pos + 1))
        }
    } else if is_digit_char(c) {
        let (end, value) = scan_number(source, len, pos, 0x7fff_ffff);
        match value {
            Some(v) => Ok((Some(Token::Operand(Operand::Int(v as i32))), end)),
            None => failure("Integer out of range"),
        }
    } else if is_word(c) {
        let end = scan_word(source, len, pos);
        let word = String::from_str(source.slice(pos, end));
        Ok((Some(make_token(word)), end))
    } else {
        failure("Unexpected character")
    }
}

/// Turns a list of tokens round.
fn reversed(tokens: Vec<Token>) -> (res: Vec<Token>)
    ensures
        in_text_order(res@) == token_views(tokens@),
{
    let mut tokens = tokens;
    let ghost all = token_views(tokens@);
    let mut res: Vec<Token> = Vec::new();
    while tokens.len() > 0
        invariant
            tokens.len() + res.len() == all.len(),
            token_views(tokens@) == all.subrange(0, tokens.len() as int),
            forall|i: int| 0 <= i < res.len() ==> token_views(res@)[i] == all[all.len() - 1 - i],
        decreases tokens.len(),
    {
        let ghost before = token_views(tokens@);
        let ghost done = token_views(res@);
        let token = tokens.pop().unwrap();
        proof {
            assert(token_views(tokens@) =~= before.drop_last());
            assert(before[before.len() - 1] == token@);
            assert(before[before.len() - 1] == all[before.len() - 1]);
        }
        res.push(token);
        proof {
            assert(token_views(res@) =~= done.push(token@));
            assert(token_views(tokens@) =~= all.subrange(0, tokens.len() as int));
        }
    }
    proof {
        assert forall|i: int| 0 <= i < all.len() implies in_text_order(res@)[i] == all[i] by {
            assert(token_views(res@)[all.len() - 1 - i] == all[i]);
        }
        assert(in_text_order(res@) =~= all);
    }
    res
}

/// Splits a text into its tokens. The list holds the last token of the text
/// first, so that taking tokens off its end yields them in the order of the
/// text.
pub fn tokenize(text: String) -> (res: Result<Vec<Token>, LexicalError>)
    ensures
        match res {
            Ok(tokens) => lex(text@, 0, false) == Ok::<Seq<TokenView>, Seq<char>>(in_text_order(tokens@))
                && token_views(tokens@) == lex(text@, 0, false)->Ok_0.reverse(),
            Err(e) => lex(text@, 0, false) == Err::<Seq<TokenView>, Seq<char>>(e@),
        },
{
    let source = Source::new(text.as_str());
    let len = source.len();
    let mut tokens: Vec<Token> = Vec::new();
    let mut pos: usize = 0;
    let mut callable = false;
    proof {
        assert(token_views(tokens@) =~= Seq::empty());
    }
    while pos < len
        invariant
            pos <= len,
            source.wf(),
            len == source@.len(),
            source@ == text@,
            lex(text@, 0, false) == (match lex(text@, pos as nat, callable) {
                Ok(rest) => Ok::<Seq<TokenView>, Seq<char>>(token_views(tokens@) + rest),
                Err(e) => Err(e),
            }),
        decreases len - pos,
    {
        match next_token(&source, len, pos, callable) {
            Err(e) => {
                return Err(e);
            },
            Ok((token, next)) => {
                match token {
                    Some(t) => {
                        let ghost before = token_views(tokens@);
                        let ghost view = t@;
                        callable = t.is_callable();
                        tokens.push(t);
                        proof {
                            assert(token_views(tokens@) =~= before.push(view));
                            match lex(text@, next as nat, callable) {
                                Ok(rest) => {
                                    assert(before + (seq![view] + rest) =~= before.push(view) + rest);
                                },
                                Err(_) => {},
                            }
                        }
                    },
                    None => {},
                }
                pos = next;
            },
        }
    }
    proof {
        assert(token_views(tokens@) + Seq::<TokenView>::empty() =~= token_views(tokens@));
    }
    let ghost forward = token_views(tokens@);
    let tokens = reversed(tokens);
    proof {
        assert(in_text_order(tokens@) =~= forward);
        lemma_in_text_order(tokens@);
    }
    Ok(tokens)
}

} // verus!
