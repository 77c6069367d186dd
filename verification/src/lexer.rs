//! The scanner: it reads a source text and produces its tokens.

use vstd::prelude::*;
use vstd::slice::slice_subrange;
use crate::scan::{
    across, after_text, belongs, block_comment_len, class_of, lemma_after_text,
    lemma_after_text_step, lemma_lexeme_advances, lexeme, origin, quoted, quoted_len, run_len,
    scan, scan_end, symbol, token_at, word_kind, LexemeClass, Position, Run,
};
use crate::text::{
    chars_of, is_alphabetic, is_alphanumeric, is_ascii_digit, is_whitespace, string_of,
};
use crate::token::{keyword_type, token_views, Token, TokenType};

verus! {

/// Whether `c` belongs to the character class of `run`, given whether `c` is alphanumeric.
pub fn in_run(run: Run, c: char, alphanumeric: bool) -> (r: bool)
    ensures
        r == belongs(run, c, alphanumeric),
{
    match run {
        Run::Number => is_ascii_digit(c) || c == '.',
        Run::Word => alphanumeric || c == '_',
        Run::LineComment => c != '\n',
    }
}

/// Whether the lookahead character is `c`.
fn follows(next: Option<char>, c: char) -> (r: bool)
    ensures
        r == (next == Some(c)),
{
    match next {
        Some(n) => n == c,
        None => false,
    }
}

/// Classifies the operator or punctuation mark that begins with `c`.
pub fn symbol_at(c: char, next: Option<char>) -> (found: Option<(TokenType, usize)>)
    ensures
        match found {
            Some((kind, n)) => symbol(c, next) == Some((kind, n as int)),
            None => symbol(c, next) is None,
        },
{
    if c == '=' {
        if follows(next, '=') {
            Some((TokenType::Equal, 2))
        } else if follows(next, '>') {
            Some((TokenType::Arrow, 2))
        } else {
            Some((TokenType::Assign, 1))
        }
    } else if c == '!' {
        if follows(next, '=') {
            Some((TokenType::NotEqual, 2))
        } else {
            Some((TokenType::Not, 1))
        }
    } else if c == '<' {
        if follows(next, '/') {
            Some((TokenType::ClosingTagStart, 2))
        } else if follows(next, '=') {
            Some((TokenType::LessEqual, 2))
        } else {
            Some((TokenType::OpeningTagStart, 1))
        }
    } else if c == '>' {
        if follows(next, '=') {
            Some((TokenType::GreaterEqual, 2))
        } else {
            Some((TokenType::TagEnd, 1))
        }
    } else if c == '&' {
        if follows(next, '&') {
            Some((TokenType::And, 2))
        } else {
            Some((TokenType::And, 1))
        }
    } else if c == '|' {
        if follows(next, '|') {
            Some((TokenType::Or, 2))
        } else {
            Some((TokenType::Pipe, 1))
        }
    } else if c == '+' {
        Some((TokenType::Plus, 1))
    } else if c == '-' {
        Some((TokenType::Minus, 1))
    } else if c == '*' {
        Some((TokenType::Multiply, 1))
    } else if c == '/' {
        Some((TokenType::Divide, 1))
    } else if c == '%' {
        Some((TokenType::Modulo, 1))
    } else if c == '(' {
        Some((TokenType::LeftParen, 1))
    } else if c == ')' {
        Some((TokenType::RightParen, 1))
    } else if c == '{' {
        Some((TokenType::LeftBrace, 1))
    } else if c == '}' {
        Some((TokenType::RightBrace, 1))
    } else if c == '[' {
        Some((TokenType::LeftBracket, 1))
    } else if c == ']' {
        Some((TokenType::RightBracket, 1))
    } else if c == ';' {
        Some((TokenType::Semicolon, 1))
    } else if c == ',' {
        Some((TokenType::Comma, 1))
    } else if c == '.' {
        Some((TokenType::Dot, 1))
    } else if c == ':' {
        Some((TokenType::Colon, 1))
    } else if c == '?' {
        Some((TokenType::Question, 1))
    } else {
        None
    }
}

/// Tells the kind of lexeme that begins with `c`, given the character after it and the
/// answers of the two character tests that the kind depends on.
pub fn classify(c: char, next: Option<char>, whitespace: bool, alphabetic: bool) -> (class:
    LexemeClass)
    ensures
        class == class_of(c, next, whitespace, alphabetic),
{
    if whitespace {
        if c == '\n' {
            LexemeClass::Newline
        } else {
            LexemeClass::Whitespace
        }
    } else if c == '/' && follows(next, '/') {
        LexemeClass::LineComment
    } else if c == '/' && follows(next, '*') {
        LexemeClass::BlockComment
    } else if c == '"' || c == '\'' {
        LexemeClass::Quoted
    } else if c == '`' {
        LexemeClass::Template
    } else if is_ascii_digit(c) {
        LexemeClass::Number
    } else if alphabetic || c == '_' {
        LexemeClass::Word
    } else {
        LexemeClass::Mark
    }
}

/// A scanner over one source text. It keeps its place between calls, so that scanning
/// resumes where the last call stopped.
pub struct Lexer {
    chars: Vec<char>,
    position: usize,
    line: usize,
    column: usize,
}

impl Lexer {
    /// The source text.
    pub closed spec fn source(&self) -> Seq<char> {
        self.chars@
    }

    /// The place the scanner has reached.
    pub closed spec fn cursor(&self) -> Position {
        Position {
            offset: self.position as int,
            line: self.line as int,
            column: self.column as int,
        }
    }

    /// The scanner's place lies within its text, and its line and column can still be
    /// counted up to the end of the text.
    pub closed spec fn well_formed(&self) -> bool {
        &&& self.chars.len() < usize::MAX
        &&& self.position <= self.chars.len()
        &&& 1 <= self.line <= self.position + 1
        &&& 1 <= self.column <= self.position + 1
    }

    /// Whether `self` has the same text as `other`.
    spec fn same_text_as(&self, other: &Self) -> bool {
        self.chars == other.chars
    }

    /// A scanner at the beginning of `input`.
    pub fn new(input: String) -> (lexer: Self)
        requires
            input@.len() < usize::MAX,
        ensures
            lexer.well_formed(),
            lexer.source() == input@,
            lexer.cursor() == origin(),
    {
        let chars = chars_of(input.as_str());
        Self { chars, position: 0, line: 1, column: 1 }
    }

    /// Scans the rest of the text. The result is always `Ok`: it holds every token from
    /// the scanner's place to the end of the text, then the end-of-input marker. The
    /// scanner is left at the end of the text.
    pub fn tokenize(&mut self) -> (result: Result<Vec<Token>, String>)
        requires
            old(self).well_formed(),
        ensures
            final(self).well_formed(),
            final(self).source() == old(self).source(),
            final(self).cursor() == scan_end(old(self).source(), old(self).cursor()),
            result matches Ok(tokens) && token_views(tokens@) == scan(
                old(self).source(),
                old(self).cursor(),
            ),
    {
        let ghost s = self.source();
        let ghost start = self.cursor();
        let mut tokens: Vec<Token> = Vec::new();
        assert(token_views(tokens@) =~= Seq::empty());
        while self.position < self.chars.len()
            invariant
                self.well_formed(),
                self.source() == s,
                scan(s, start) == token_views(tokens@) + scan(s, self.cursor()),
                scan_end(s, start) == scan_end(s, self.cursor()),
            decreases self.chars.len() - self.position,
        {
            let ghost at = self.cursor();
            let ghost before = tokens@;
            proof {
                lemma_lexeme_advances(s, at);
            }
            match self.next_token() {
                Some(token) => {
                    tokens.push(token);
                    assert(token_views(tokens@) =~= token_views(before) + seq![token@]);
                    assert(scan(s, at) == seq![token@] + scan(s, self.cursor()));
                },
                None => {},
            }
        }
        let end = Token::new(TokenType::Eof, String::new(), self.line, self.column);
        let ghost before = tokens@;
        tokens.push(end);
        assert(token_views(tokens@) =~= token_views(before) + seq![end@]);
        Ok(tokens)
    }

    /// Performs one scanning step.
    fn next_token(&mut self) -> (token: Option<Token>)
        requires
            old(self).well_formed(),
            old(self).position < old(self).chars.len(),
        ensures
            final(self).well_formed(),
            final(self).same_text_as(old(self)),
            (
                match token {
                    Some(t) => Some(t@),
                    None => None,
                },
                final(self).cursor(),
            ) == lexeme(old(self).source(), old(self).cursor()),
    {
        proof {
            lemma_lexeme_advances(self.source(), self.cursor());
        }
        let current = self.chars[self.position];
        let next = if self.position + 1 < self.chars.len() {
            Some(self.chars[self.position + 1])
        } else {
            None
        };
        match classify(current, next, is_whitespace(current), is_alphabetic(current)) {
            LexemeClass::Newline => {
                let value = self.text(self.position, self.position + 1);
                assert(value@ =~= seq![current]);
                let token = Token::new(TokenType::Newline, value, self.line, self.column);
                self.position += 1;
                self.line += 1;
                self.column = 1;
                Some(token)
            },
            LexemeClass::Whitespace => {
                let value = self.text(self.position, self.position + 1);
                assert(value@ =~= seq![current]);
                let token = Token::new(TokenType::Whitespace, value, self.line, self.column);
                self.position += 1;
                self.column += 1;
                Some(token)
            },
            LexemeClass::LineComment => Some(self.read_line_comment()),
            LexemeClass::BlockComment => Some(self.read_block_comment()),
            LexemeClass::Quoted => Some(self.read_string()),
            LexemeClass::Template => Some(self.read_template_literal()),
            LexemeClass::Number => Some(self.read_number()),
            LexemeClass::Word => Some(self.read_identifier()),
            LexemeClass::Mark => match symbol_at(current, next) {
                Some((kind, n)) => {
                    let value = self.text(self.position, self.position + n);
                    let token = Token::new(kind, value, self.line, self.column);
                    self.position += n;
                    self.column += n;
                    Some(token)
                },
                None => {
                    self.position += 1;
                    self.column += 1;
                    None
                },
            },
        }
    }

    /// The characters from offset `from` up to offset `to`, as a `String`.
    fn text(&self, from: usize, to: usize) -> (value: String)
        requires
            from <= to <= self.chars.len(),
        ensures
            value@ == self.chars@.subrange(from as int, to as int),
    {
        string_of(slice_subrange(self.chars.as_slice(), from, to))
    }

    /// The offset behind the maximal run of `run` characters that starts at `from`.
    fn run_end(&self, from: usize, run: Run) -> (end: usize)
        requires
            from <= self.chars.len(),
        ensures
            end == from + run_len(self.chars@, from as int, run),
            from <= end <= self.chars.len(),
    {
        let mut end = from;
        while end < self.chars.len() && in_run(
            run,
            self.chars[end],
            is_alphanumeric(self.chars[end]),
        )
            invariant
                from <= end <= self.chars.len(),
                (end - from) + run_len(self.chars@, end as int, run) == run_len(
                    self.chars@,
                    from as int,
                    run,
                ),
            decreases self.chars.len() - end,
        {
            end += 1;
        }
        end
    }

    /// Reads a `//` comment, which runs up to the next line feed.
    fn read_line_comment(&mut self) -> (token: Token)
        requires
            old(self).well_formed(),
            old(self).position < old(self).chars.len(),
        ensures
            final(self).well_formed(),
            final(self).same_text_as(old(self)),
            ({
                let s = old(self).source();
                let at = old(self).cursor();
                let n = run_len(s, at.offset, Run::LineComment);
                &&& token@ == token_at(
                    TokenType::Comment,
                    s.subrange(at.offset, at.offset + n),
                    at,
                )
                &&& final(self).cursor() == across(at, n)
            }),
    {
        let start = self.position;
        let end = self.run_end(start, Run::LineComment);
        let token = Token::new(TokenType::Comment, self.text(start, end), self.line, self.column);
        self.column += end - start;
        self.position = end;
        token
    }

    /// Reads a `/* ... */` comment, counting the lines it spans.
    fn read_block_comment(&mut self) -> (token: Token)
        requires
            old(self).well_formed(),
            old(self).position + 1 < old(self).chars.len(),
        ensures
            final(self).well_formed(),
            final(self).same_text_as(old(self)),
            ({
                let s = old(self).source();
                let at = old(self).cursor();
                let n = 2 + block_comment_len(s, at.offset + 2);
                let text = s.subrange(at.offset, at.offset + n);
                &&& token@ == token_at(TokenType::Comment, text, after_text(at, text))
                &&& final(self).cursor() == after_text(at, text)
            }),
    {
        let ghost s = self.source();
        let ghost at = self.cursor();
        let start = self.position;
        let len = self.chars.len();
        let mut end = start;
        let mut line = self.line;
        let mut column = self.column;
        let mut closed = false;
        assert(s.subrange(start as int, end as int) =~= Seq::empty());
        while !closed && end < len
            invariant
                self.chars@ == s,
                len == s.len(),
                len < usize::MAX,
                at == (Position { offset: start as int, line: at.line, column: at.column }),
                1 <= at.line <= start + 1,
                1 <= at.column <= start + 1,
                start + 1 < len,
                start <= end <= len,
                closed ==> end == start + 2 + block_comment_len(s, start + 2),
                !closed && end >= start + 2 ==> (end - (start + 2)) + block_comment_len(
                    s,
                    end as int,
                ) == block_comment_len(s, start + 2),
                !closed || end >= start + 2,
                (Position { offset: end as int, line: line as int, column: column as int })
                    == after_text(at, s.subrange(start as int, end as int)),
            decreases (len - end) + (if closed { 0int } else { 1int }),
        {
            proof {
                lemma_after_text(at, s.subrange(start as int, end as int));
                lemma_after_text_step(s, at, start as int, end as int);
                if end + 1 < len {
                    lemma_after_text_step(s, at, start as int, end + 1);
                }
            }
            if end >= start + 2 && end + 1 < len && self.chars[end] == '*' && self.chars[end + 1]
                == '/' {
                end += 2;
                column += 2;
                closed = true;
            } else {
                if self.chars[end] == '\n' {
                    line += 1;
                    column = 1;
                } else {
                    column += 1;
                }
                end += 1;
            }
        }
        proof {
            lemma_after_text(at, s.subrange(start as int, end as int));
        }
        let token = Token::new(TokenType::Comment, self.text(start, end), line, column);
        self.position = end;
        self.line = line;
        self.column = column;
        token
    }

    /// Reads a quoted literal of category `kind` that opens at the scanner's place.
    fn read_quoted(&mut self, kind: TokenType) -> (token: Token)
        requires
            old(self).well_formed(),
            old(self).position < old(self).chars.len(),
        ensures
            final(self).well_formed(),
            final(self).same_text_as(old(self)),
            (Some(token@), final(self).cursor()) == quoted(
                old(self).source(),
                old(self).cursor(),
                old(self).source()[old(self).cursor().offset],
                kind,
            ),
    {
        let ghost s = self.source();
        let quote = self.chars[self.position];
        let start = self.position + 1;
        let len = self.chars.len();
        let mut close = start;
        while close < len && self.chars[close] != quote
            invariant
                self.chars@ == s,
                len == s.len(),
                start <= close <= len,
                (close - start) + quoted_len(s, close as int, quote) == quoted_len(
                    s,
                    start as int,
                    quote,
                ),
            decreases len - close,
        {
            if self.chars[close] == '\\' && close + 1 < len {
                close += 2;
            } else {
                close += 1;
            }
        }
        let value = self.text(start, close);
        let end = if close < len { close + 1 } else { close };
        self.column += end - self.position;
        self.position = end;
        Token::new(kind, value, self.line, self.column)
    }

    /// Reads a literal in single or double quotes.
    fn read_string(&mut self) -> (token: Token)
        requires
            old(self).well_formed(),
            old(self).position < old(self).chars.len(),
        ensures
            final(self).well_formed(),
            final(self).same_text_as(old(self)),
            (Some(token@), final(self).cursor()) == quoted(
                old(self).source(),
                old(self).cursor(),
                old(self).source()[old(self).cursor().offset],
                TokenType::String,
            ),
    {
        self.read_quoted(TokenType::String)
    }

    /// Reads a literal in backticks.
    fn read_template_literal(&mut self) -> (token: Token)
        requires
            old(self).well_formed(),
            old(self).position < old(self).chars.len(),
        ensures
            final(self).well_formed(),
            final(self).same_text_as(old(self)),
            (Some(token@), final(self).cursor()) == quoted(
                old(self).source(),
                old(self).cursor(),
                old(self).source()[old(self).cursor().offset],
                TokenType::TemplateLiteral,
            ),
    {
        self.read_quoted(TokenType::TemplateLiteral)
    }

    /// Reads a maximal run of digits and dots.
    fn read_number(&mut self) -> (token: Token)
        requires
            old(self).well_formed(),
            old(self).position < old(self).chars.len(),
        ensures
            final(self).well_formed(),
            final(self).same_text_as(old(self)),
            ({
                let s = old(self).source();
                let at = old(self).cursor();
                let n = run_len(s, at.offset, Run::Number);
                &&& token@ == token_at(
                    TokenType::Number,
                    s.subrange(at.offset, at.offset + n),
                    across(at, n),
                )
                &&& final(self).cursor() == across(at, n)
            }),
    {
        let start = self.position;
        let end = self.run_end(start, Run::Number);
        let value = self.text(start, end);
        self.column += end - start;
        self.position = end;
        Token::new(TokenType::Number, value, self.line, self.column)
    }

    /// Reads a word, which is a keyword or an identifier.
    fn read_identifier(&mut self) -> (token: Token)
        requires
            old(self).well_formed(),
            old(self).position < old(self).chars.len(),
        ensures
            final(self).well_formed(),
            final(self).same_text_as(old(self)),
            ({
                let s = old(self).source();
                let at = old(self).cursor();
                let n = 1 + run_len(s, at.offset + 1, Run::Word);
                let word = s.subrange(at.offset, at.offset + n);
                &&& token@ == token_at(word_kind(word), word, across(at, n))
                &&& final(self).cursor() == across(at, n)
            }),
    {
        let start = self.position;
        let end = self.run_end(start + 1, Run::Word);
        let value = self.text(start, end);
        let token_type = match keyword_type(value.as_str()) {
            Some(kind) => kind,
            None => TokenType::Identifier,
        };
        self.column += end - start;
        self.position = end;
        Token::new(token_type, value, self.line, self.column)
    }
}

} // verus!
