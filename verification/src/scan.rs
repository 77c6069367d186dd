//! What the scanner computes: the token sequence of a source text, defined step by step
//! over its characters.

use vstd::prelude::*;
use crate::text::{ascii_digit, unicode_alphabetic, unicode_alphanumeric, unicode_whitespace};
use crate::token::{keyword, TokenType, TokenView};

verus! {

/// A place in the source text: a 0-based character offset with its 1-based line and column.
pub struct Position {
    pub offset: int,
    pub line: int,
    pub column: int,
}

/// Where scanning begins: the first character, line 1, column 1.
pub open spec fn origin() -> Position {
    Position { offset: 0, line: 1, column: 1 }
}

/// The position `n` characters further along the same line.
pub open spec fn across(at: Position, n: int) -> Position {
    Position { offset: at.offset + n, line: at.line, column: at.column + n }
}

/// The position reached from `at` by reading `text`, where every line feed starts a new line
/// at column 1.
pub open spec fn after_text(at: Position, text: Seq<char>) -> Position
    decreases text.len(),
{
    if text.len() == 0 {
        at
    } else {
        let before = after_text(at, text.drop_last());
        if text.last() == '\n' {
            Position { offset: before.offset + 1, line: before.line + 1, column: 1 }
        } else {
            across(before, 1)
        }
    }
}

/// The kinds of lexeme that are maximal runs of one character class.
#[derive(Clone, Copy)]
pub enum Run {
    /// Digits and dots.
    Number,
    /// Alphanumeric characters and underscores.
    Word,
    /// Everything up to the next line feed.
    LineComment,
}

/// Whether `c` belongs to the character class of `run`, given whether `c` is alphanumeric.
pub open spec fn belongs(run: Run, c: char, alphanumeric: bool) -> bool {
    match run {
        Run::Number => ascii_digit(c) || c == '.',
        Run::Word => alphanumeric || c == '_',
        Run::LineComment => c != '\n',
    }
}

/// Whether `c` belongs to the character class of `run`.
pub open spec fn continues(run: Run, c: char) -> bool {
    belongs(run, c, unicode_alphanumeric(c))
}

/// The length of the maximal run of `run` characters that starts at offset `from`.
pub open spec fn run_len(s: Seq<char>, from: int, run: Run) -> int
    decreases s.len() - from,
{
    if 0 <= from < s.len() && continues(run, s[from]) {
        1 + run_len(s, from + 1, run)
    } else {
        0
    }
}

/// The length of the body of a quoted literal whose first body character is at `from`: the
/// characters before the next unescaped `quote`, or all that remain when there is none. A
/// backslash takes the character after it along, whatever it is.
pub open spec fn quoted_len(s: Seq<char>, from: int, quote: char) -> int
    decreases s.len() - from,
{
    if from < 0 || from >= s.len() || s[from] == quote {
        0
    } else if s[from] == '\\' && from + 1 < s.len() {
        2 + quoted_len(s, from + 2, quote)
    } else {
        1 + quoted_len(s, from + 1, quote)
    }
}

/// The number of characters of a block comment that follow its opening `/*`, where `from` is
/// the offset just behind the opener: everything through the first `*/`, or all that remain
/// when the comment is never closed.
pub open spec fn block_comment_len(s: Seq<char>, from: int) -> int
    decreases s.len() - from,
{
    if from < 0 || from >= s.len() {
        0
    } else if from + 1 < s.len() && s[from] == '*' && s[from + 1] == '/' {
        2
    } else {
        1 + block_comment_len(s, from + 1)
    }
}

/// The operator or punctuation mark that begins with `c`, given the character after it:
/// its category and its length. Two-character operators win over their one-character
/// prefixes.
pub open spec fn symbol(c: char, next: Option<char>) -> Option<(TokenType, int)> {
    if c == '=' {
        if next == Some('=') {
            Some((TokenType::Equal, 2))
        } else if next == Some('>') {
            Some((TokenType::Arrow, 2))
        } else {
            Some((TokenType::Assign, 1))
        }
    } else if c == '!' {
        if next == Some('=') {
            Some((TokenType::NotEqual, 2))
        } else {
            Some((TokenType::Not, 1))
        }
    } else if c == '<' {
        if next == Some('/') {
            Some((TokenType::ClosingTagStart, 2))
        } else if next == Some('=') {
            Some((TokenType::LessEqual, 2))
        } else {
            Some((TokenType::OpeningTagStart, 1))
        }
    } else if c == '>' {
        if next == Some('=') {
            Some((TokenType::GreaterEqual, 2))
        } else {
            Some((TokenType::TagEnd, 1))
        }
    } else if c == '&' {
        if next == Some('&') {
            Some((TokenType::And, 2))
        } else {
            Some((TokenType::And, 1))
        }
    } else if c == '|' {
        if next == Some('|') {
            Some((TokenType::Or, 2))
        } else {
            Some((TokenType::Pipe, 1))
        }
    } else if c == '+' {
        Some((TokenType::Plus, 1))
    } else if c == '-' {
        Some((TokenType::Minus, 1))
    } else if c == '*' {
        Some((TokenType::Multiply, 1))
    } else if c == '/' {
        Some((TokenType::Divide, 1))
    } else if c == '%' {
        Some((TokenType::Modulo, 1))
    } else if c == '(' {
        Some((TokenType::LeftParen, 1))
    } else if c == ')' {
        Some((TokenType::RightParen, 1))
    } else if c == '{' {
        Some((TokenType::LeftBrace, 1))
    } else if c == '}' {
        Some((TokenType::RightBrace, 1))
    } else if c == '[' {
        Some((TokenType::LeftBracket, 1))
    } else if c == ']' {
        Some((TokenType::RightBracket, 1))
    } else if c == ';' {
        Some((TokenType::Semicolon, 1))
    } else if c == ',' {
        Some((TokenType::Comma, 1))
    } else if c == '.' {
        Some((TokenType::Dot, 1))
    } else if c == ':' {
        Some((TokenType::Colon, 1))
    } else if c == '?' {
        Some((TokenType::Question, 1))
    } else {
        None
    }
}

/// A token of category `kind` with text `text`, tagged with the line and column of `at`.
pub open spec fn token_at(kind: TokenType, text: Seq<char>, at: Position) -> TokenView {
    TokenView { kind, text, line: at.line, column: at.column }
}

/// The category of a word: its keyword category, or `Identifier`.
pub open spec fn word_kind(word: Seq<char>) -> TokenType {
    match keyword(word) {
        Some(kind) => kind,
        None => TokenType::Identifier,
    }
}

/// A quoted literal that opens at `at` with `quote`. Its text is the body between the
/// quotes, or everything behind the opening quote when the literal is never closed; it is
/// tagged with the position behind the literal.
pub open spec fn quoted(s: Seq<char>, at: Position, quote: char, kind: TokenType) -> (
    Option<TokenView>,
    Position,
) {
    let body = quoted_len(s, at.offset + 1, quote);
    let close = at.offset + 1 + body;
    let end = across(at, if close < s.len() { body + 2 } else { body + 1 });
    (Some(token_at(kind, s.subrange(at.offset + 1, close), end)), end)
}

/// The kinds of lexeme, as the first character and the one after it tell them apart.
#[derive(Debug, Clone, Copy, PartialEq, Eq, Structural)]
pub enum LexemeClass {
    /// A line feed.
    Newline,
    /// Any other whitespace character.
    Whitespace,
    /// A comment that begins with `//`.
    LineComment,
    /// A comment that begins with `/*`.
    BlockComment,
    /// A literal in single or double quotes.
    Quoted,
    /// A literal in backticks.
    Template,
    /// A run of digits and dots.
    Number,
    /// A keyword or an identifier.
    Word,
    /// An operator, a punctuation mark, or a character that starts no lexeme.
    Mark,
}

/// The kind of lexeme that begins with `c`, given the character after it and whether `c`
/// is whitespace and whether it is alphabetic. Earlier cases win over later ones.
pub open spec fn class_of(
    c: char,
    next: Option<char>,
    whitespace: bool,
    alphabetic: bool,
) -> LexemeClass {
    if whitespace {
        if c == '\n' {
            LexemeClass::Newline
        } else {
            LexemeClass::Whitespace
        }
    } else if c == '/' && next == Some('/') {
        LexemeClass::LineComment
    } else if c == '/' && next == Some('*') {
        LexemeClass::BlockComment
    } else if c == '"' || c == '\'' {
        LexemeClass::Quoted
    } else if c == '`' {
        LexemeClass::Template
    } else if ascii_digit(c) {
        LexemeClass::Number
    } else if alphabetic || c == '_' {
        LexemeClass::Word
    } else {
        LexemeClass::Mark
    }
}

/// One scanning step at `at`, which must lie inside `s`: the token found there, if the
/// characters form one, and the position behind the characters consumed.
///
/// Whitespace, line comments, operators and punctuation are tagged with the position of their
/// first character; block comments, quoted literals, numbers and words with the position
/// behind their last. A character that starts no lexeme is passed over without a token.
pub open spec fn lexeme(s: Seq<char>, at: Position) -> (Option<TokenView>, Position) {
    let c = s[at.offset];
    let next = if at.offset + 1 < s.len() { Some(s[at.offset + 1]) } else { None };
    match class_of(c, next, unicode_whitespace(c), unicode_alphabetic(c)) {
        LexemeClass::Newline => (
            Some(token_at(TokenType::Newline, seq![c], at)),
            Position { offset: at.offset + 1, line: at.line + 1, column: 1 },
        ),
        LexemeClass::Whitespace => (
            Some(token_at(TokenType::Whitespace, seq![c], at)),
            across(at, 1),
        ),
        LexemeClass::LineComment => {
            let n = run_len(s, at.offset, Run::LineComment);
            (
                Some(token_at(TokenType::Comment, s.subrange(at.offset, at.offset + n), at)),
                across(at, n),
            )
        },
        LexemeClass::BlockComment => {
            let n = 2 + block_comment_len(s, at.offset + 2);
            let text = s.subrange(at.offset, at.offset + n);
            let end = after_text(at, text);
            (Some(token_at(TokenType::Comment, text, end)), end)
        },
        LexemeClass::Quoted => quoted(s, at, c, TokenType::String),
        LexemeClass::Template => quoted(s, at, c, TokenType::TemplateLiteral),
        LexemeClass::Number => {
            let n = run_len(s, at.offset, Run::Number);
            let end = across(at, n);
            (Some(token_at(TokenType::Number, s.subrange(at.offset, at.offset + n), end)), end)
        },
        LexemeClass::Word => {
            let n = 1 + run_len(s, at.offset + 1, Run::Word);
            let end = across(at, n);
            let word = s.subrange(at.offset, at.offset + n);
            (Some(token_at(word_kind(word), word, end)), end)
        },
        LexemeClass::Mark => match symbol(c, next) {
            Some((kind, n)) => (
                Some(token_at(kind, s.subrange(at.offset, at.offset + n), at)),
                across(at, n),
            ),
            None => (None, across(at, 1)),
        },
    }
}

/// The end-of-input marker: an `Eof` token with empty text at `at`.
pub open spec fn end_marker(at: Position) -> TokenView {
    token_at(TokenType::Eof, Seq::empty(), at)
}

/// The tokens of `s` from `at` onward, closed by the end-of-input marker.
pub open spec fn scan(s: Seq<char>, at: Position) -> Seq<TokenView>
    decreases s.len() - at.offset,
{
    if at.offset < 0 || at.offset >= s.len() {
        seq![end_marker(at)]
    } else {
        proof {
            lemma_lexeme_advances(s, at);
        }
        let (token, next) = lexeme(s, at);
        match token {
            Some(t) => seq![t] + scan(s, next),
            None => scan(s, next),
        }
    }
}

/// The position at which scanning `s` from `at` ends: that of the end-of-input marker.
pub open spec fn scan_end(s: Seq<char>, at: Position) -> Position
    decreases s.len() - at.offset,
{
    if at.offset < 0 || at.offset >= s.len() {
        at
    } else {
        proof {
            lemma_lexeme_advances(s, at);
        }
        scan_end(s, lexeme(s, at).1)
    }
}

/// The complete token sequence of a source text.
pub open spec fn tokens_of(source: Seq<char>) -> Seq<TokenView> {
    scan(source, origin())
}

/// A run stays inside the text.
pub proof fn lemma_run_len_bounds(s: Seq<char>, from: int, run: Run)
    requires
        0 <= from <= s.len(),
    ensures
        0 <= run_len(s, from, run) <= s.len() - from,
    decreases s.len() - from,
{
    if from < s.len() && continues(run, s[from]) {
        lemma_run_len_bounds(s, from + 1, run);
    }
}

/// The body of a quoted literal stays inside the text.
pub proof fn lemma_quoted_len_bounds(s: Seq<char>, from: int, quote: char)
    requires
        0 <= from <= s.len(),
    ensures
        0 <= quoted_len(s, from, quote) <= s.len() - from,
    decreases s.len() - from,
{
    if from >= s.len() || s[from] == quote {
    } else if s[from] == '\\' && from + 1 < s.len() {
        lemma_quoted_len_bounds(s, from + 2, quote);
    } else {
        lemma_quoted_len_bounds(s, from + 1, quote);
    }
}

/// A block comment stays inside the text.
pub proof fn lemma_block_comment_len_bounds(s: Seq<char>, from: int)
    requires
        0 <= from <= s.len(),
    ensures
        0 <= block_comment_len(s, from) <= s.len() - from,
    decreases s.len() - from,
{
    if from >= s.len() {
    } else if from + 1 < s.len() && s[from] == '*' && s[from + 1] == '/' {
    } else {
        lemma_block_comment_len_bounds(s, from + 1);
    }
}

/// Reading a text moves the offset by its length. The line never falls and grows by no
/// more than the characters read; so does the column, which stays at least 1.
pub proof fn lemma_after_text(at: Position, text: Seq<char>)
    ensures
        after_text(at, text).offset == at.offset + text.len(),
        at.line <= after_text(at, text).line <= at.line + text.len(),
        at.column >= 1 ==> 1 <= after_text(at, text).column <= at.column + text.len(),
    decreases text.len(),
{
    if text.len() > 0 {
        lemma_after_text(at, text.drop_last());
    }
}

/// Reading one more character of `s` moves the position by that character.
pub proof fn lemma_after_text_step(s: Seq<char>, at: Position, start: int, end: int)
    requires
        0 <= start <= end < s.len(),
    ensures
        after_text(at, s.subrange(start, end + 1)) == ({
            let before = after_text(at, s.subrange(start, end));
            if s[end] == '\n' {
                Position { offset: before.offset + 1, line: before.line + 1, column: 1 }
            } else {
                across(before, 1)
            }
        }),
{
    assert(s.subrange(start, end + 1).drop_last() =~= s.subrange(start, end));
}

/// Every scanning step consumes at least one character and stays inside the text; lines
/// and columns grow by no more than the characters consumed.
pub proof fn lemma_lexeme_advances(s: Seq<char>, at: Position)
    requires
        0 <= at.offset < s.len(),
    ensures
        at.offset < lexeme(s, at).1.offset <= s.len(),
        at.line <= lexeme(s, at).1.line <= at.line + (lexeme(s, at).1.offset - at.offset),
        at.column >= 1 ==> 1 <= lexeme(s, at).1.column <= at.column + (lexeme(s, at).1.offset
            - at.offset),
{
    let c = s[at.offset];
    lemma_run_len_bounds(s, at.offset + 1, Run::LineComment);
    lemma_run_len_bounds(s, at.offset + 1, Run::Number);
    assert(c != '\n' ==> run_len(s, at.offset, Run::LineComment) == 1 + run_len(
        s,
        at.offset + 1,
        Run::LineComment,
    ));
    assert(ascii_digit(c) ==> run_len(s, at.offset, Run::Number) == 1 + run_len(
        s,
        at.offset + 1,
        Run::Number,
    ));
    lemma_run_len_bounds(s, at.offset + 1, Run::Word);
    lemma_quoted_len_bounds(s, at.offset + 1, s[at.offset]);
    if at.offset + 2 <= s.len() {
        lemma_block_comment_len_bounds(s, at.offset + 2);
        let n = 2 + block_comment_len(s, at.offset + 2);
        lemma_after_text(at, s.subrange(at.offset, at.offset + n));
    }
}

/// No scanning step yields the end-of-input marker's category.
pub proof fn lemma_lexeme_is_no_marker(s: Seq<char>, at: Position)
    requires
        0 <= at.offset < s.len(),
    ensures
        lexeme(s, at).0 matches Some(token) ==> token.kind != TokenType::Eof,
{
}

/// Scanning reaches the end of the text, and the token sequence ends with the
/// end-of-input marker at the place reached, which is the only token of its category.
pub proof fn lemma_scan_ends_with_marker(s: Seq<char>, at: Position)
    requires
        0 <= at.offset <= s.len(),
    ensures
        scan_end(s, at).offset == s.len(),
        scan(s, at).len() >= 1,
        scan(s, at).last() == end_marker(scan_end(s, at)),
        forall|i: int|
            0 <= i < scan(s, at).len() - 1 ==> (#[trigger] scan(s, at)[i]).kind != TokenType::Eof,
    decreases s.len() - at.offset,
{
    if at.offset < s.len() {
        lemma_lexeme_advances(s, at);
        lemma_lexeme_is_no_marker(s, at);
        let (token, next) = lexeme(s, at);
        lemma_scan_ends_with_marker(s, next);
        let rest = scan(s, next);
        match token {
            Some(t) => {
                assert(scan(s, at) == seq![t] + rest);
                assert forall|i: int| 0 <= i < scan(s, at).len() - 1 implies (#[trigger] scan(
                    s,
                    at,
                )[i]).kind != TokenType::Eof by {
                    if i > 0 {
                        assert(scan(s, at)[i] == rest[i - 1]);
                    }
                }
            },
            None => {
                assert(scan(s, at) == rest);
            },
        }
    }
}

} // verus!
