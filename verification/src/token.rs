//! Tokens: the closed set of lexical categories, the position-tagged token, and the keyword
//! table.

use vstd::prelude::*;
use crate::text::same_text;

verus! {

/// The lexical category of a token.
#[derive(Debug, Clone, Copy, PartialEq, Eq, Structural)]
pub enum TokenType {
    // Keywords
    Page, Component, Style, Event, State, Api, Router, Route, Layout,
    Animation, Type, Hook, Plugin, Config, Import, Export, From, As,
    If, Else, For, While, Function, Async, Await, Return, Const, Let, Var,
    True, False, Null, Undefined, Class, Extends, Implements, Interface,
    Enum, Namespace, Render, Computed, Watch, Mounted, Unmounted,
    // Operators
    Assign, Equal, NotEqual, Less, Greater, LessEqual, GreaterEqual,
    Plus, Minus, Multiply, Divide, Modulo, And, Or, Not, Arrow,
    // Punctuation
    LeftParen, RightParen, LeftBrace, RightBrace, LeftBracket, RightBracket,
    Semicolon, Comma, Dot, Colon, Question, Pipe,
    // Tag delimiters
    OpeningTagStart, ClosingTagStart, TagEnd, SelfClosingTagEnd,
    // Literals
    Identifier, String, Number, TemplateLiteral,
    // Trivia and end of input
    Comment, Whitespace, Newline, Eof,
}

/// A token as a mathematical value: its category, its text and a 1-based position.
pub struct TokenView {
    pub kind: TokenType,
    pub text: Seq<char>,
    pub line: int,
    pub column: int,
}

/// A position-tagged lexeme.
#[derive(Debug, Clone)]
pub struct Token {
    pub token_type: TokenType,
    pub value: String,
    pub line: usize,
    pub column: usize,
}

impl View for Token {
    type V = TokenView;

    open spec fn view(&self) -> TokenView {
        TokenView {
            kind: self.token_type,
            text: self.value@,
            line: self.line as int,
            column: self.column as int,
        }
    }
}

impl Token {
    /// A token with the given category, text and position.
    pub fn new(token_type: TokenType, value: String, line: usize, column: usize) -> (token: Self)
        ensures
            token.token_type == token_type,
            token.value == value,
            token.line == line,
            token.column == column,
    {
        Self { token_type, value, line, column }
    }

    /// A copy of this token with the same category, text and position.
    pub fn duplicate(&self) -> (copy: Self)
        ensures
            copy@ == self@,
    {
        Self {
            token_type: self.token_type,
            value: self.value.clone(),
            line: self.line,
            column: self.column,
        }
    }
}

/// The views of a sequence of tokens, in order.
pub open spec fn token_views(tokens: Seq<Token>) -> Seq<TokenView> {
    tokens.map_values(|t: Token| t@)
}

/// The fixed keyword table: the category of a reserved word, or `None` for any other
/// text.
pub open spec fn keyword(word: Seq<char>) -> Option<TokenType> {
    if word == "page"@ {
        Some(TokenType::Page)
    } else if word == "component"@ {
        Some(TokenType::Component)
    } else if word == "style"@ {
        Some(TokenType::Style)
    } else if word == "event"@ {
        Some(TokenType::Event)
    } else if word == "state"@ {
        Some(TokenType::State)
    } else if word == "api"@ {
        Some(TokenType::Api)
    } else if word == "router"@ {
        Some(TokenType::Router)
    } else if word == "route"@ {
        Some(TokenType::Route)
    } else if word == "layout"@ {
        Some(TokenType::Layout)
    } else if word == "animation"@ {
        Some(TokenType::Animation)
    } else if word == "type"@ {
        Some(TokenType::Type)
    } else if word == "hook"@ {
        Some(TokenType::Hook)
    } else if word == "plugin"@ {
        Some(TokenType::Plugin)
    } else if word == "config"@ {
        Some(TokenType::Config)
    } else if word == "import"@ {
        Some(TokenType::Import)
    } else if word == "export"@ {
        Some(TokenType::Export)
    } else if word == "from"@ {
        Some(TokenType::From)
    } else if word == "as"@ {
        Some(TokenType::As)
    } else if word == "if"@ {
        Some(TokenType::If)
    } else if word == "else"@ {
        Some(TokenType::Else)
    } else if word == "for"@ {
        Some(TokenType::For)
    } else if word == "while"@ {
        Some(TokenType::While)
    } else if word == "function"@ {
        Some(TokenType::Function)
    } else if word == "async"@ {
        Some(TokenType::Async)
    } else if word == "await"@ {
        Some(TokenType::Await)
    } else if word == "return"@ {
        Some(TokenType::Return)
    } else if word == "const"@ {
        Some(TokenType::Const)
    } else if word == "let"@ {
        Some(TokenType::Let)
    } else if word == "var"@ {
        Some(TokenType::Var)
    } else if word == "true"@ {
        Some(TokenType::True)
    } else if word == "false"@ {
        Some(TokenType::False)
    } else if word == "null"@ {
        Some(TokenType::Null)
    } else if word == "undefined"@ {
        Some(TokenType::Undefined)
    } else if word == "class"@ {
        Some(TokenType::Class)
    } else if word == "extends"@ {
        Some(TokenType::Extends)
    } else if word == "implements"@ {
        Some(TokenType::Implements)
    } else if word == "interface"@ {
        Some(TokenType::Interface)
    } else if word == "enum"@ {
        Some(TokenType::Enum)
    } else if word == "namespace"@ {
        Some(TokenType::Namespace)
    } else if word == "render"@ {
        Some(TokenType::Render)
    } else if word == "computed"@ {
        Some(TokenType::Computed)
    } else if word == "watch"@ {
        Some(TokenType::Watch)
    } else if word == "mounted"@ {
        Some(TokenType::Mounted)
    } else if word == "unmounted"@ {
        Some(TokenType::Unmounted)
    } else {
        None
    }
}

/// Looks a word up in the keyword table.
pub fn keyword_type(word: &str) -> (found: Option<TokenType>)
    ensures
        found == keyword(word@),
{
    if same_text(word, "page") {
        Some(TokenType::Page)
    } else if same_text(word, "component") {
        Some(TokenType::Component)
    } else if same_text(word, "style") {
        Some(TokenType::Style)
    } else if same_text(word, "event") {
        Some(TokenType::Event)
    } else if same_text(word, "state") {
        Some(TokenType::State)
    } else if same_text(word, "api") {
        Some(TokenType::Api)
    } else if same_text(word, "router") {
        Some(TokenType::Router)
    } else if same_text(word, "route") {
        Some(TokenType::Route)
    } else if same_text(word, "layout") {
        Some(TokenType::Layout)
    } else if same_text(word, "animation") {
        Some(TokenType::Animation)
    } else if same_text(word, "type") {
        Some(TokenType::Type)
    } else if same_text(word, "hook") {
        Some(TokenType::Hook)
    } else if same_text(word, "plugin") {
        Some(TokenType::Plugin)
    } else if same_text(word, "config") {
        Some(TokenType::Config)
    } else if same_text(word, "import") {
        Some(TokenType::Import)
    } else if same_text(word, "export") {
        Some(TokenType::Export)
    } else if same_text(word, "from") {
        Some(TokenType::From)
    } else if same_text(word, "as") {
        Some(TokenType::As)
    } else if same_text(word, "if") {
        Some(TokenType::If)
    } else if same_text(word, "else") {
        Some(TokenType::Else)
    } else if same_text(word, "for") {
        Some(TokenType::For)
    } else if same_text(word, "while") {
        Some(TokenType::While)
    } else if same_text(word, "function") {
        Some(TokenType::Function)
    } else if same_text(word, "async") {
        Some(TokenType::Async)
    } else if same_text(word, "await") {
        Some(TokenType::Await)
    } else if same_text(word, "return") {
        Some(TokenType::Return)
    } else if same_text(word, "const") {
        Some(TokenType::Const)
    } else if same_text(word, "let") {
        Some(TokenType::Let)
    } else if same_text(word, "var") {
        Some(TokenType::Var)
    } else if same_text(word, "true") {
        Some(TokenType::True)
    } else if same_text(word, "false") {
        Some(TokenType::False)
    } else if same_text(word, "null") {
        Some(TokenType::Null)
    } else if same_text(word, "undefined") {
        Some(TokenType::Undefined)
    } else if same_text(word, "class") {
        Some(TokenType::Class)
    } else if same_text(word, "extends") {
        Some(TokenType::Extends)
    } else if same_text(word, "implements") {
        Some(TokenType::Implements)
    } else if same_text(word, "interface") {
        Some(TokenType::Interface)
    } else if same_text(word, "enum") {
        Some(TokenType::Enum)
    } else if same_text(word, "namespace") {
        Some(TokenType::Namespace)
    } else if same_text(word, "render") {
        Some(TokenType::Render)
    } else if same_text(word, "computed") {
        Some(TokenType::Computed)
    } else if same_text(word, "watch") {
        Some(TokenType::Watch)
    } else if same_text(word, "mounted") {
        Some(TokenType::Mounted)
    } else if same_text(word, "unmounted") {
        Some(TokenType::Unmounted)
    } else {
        None
    }
}

} // verus!
