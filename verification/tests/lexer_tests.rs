use emadocs_compiler::lexer::{classify, in_run, symbol_at, Lexer};
use emadocs_compiler::scan::{LexemeClass, Run};
use emadocs_compiler::text::{chars_of, is_ascii_digit, string_of};
use emadocs_compiler::token::{keyword_type, Token, TokenType};

fn scan(source: &str) -> Vec<Token> {
    let mut lexer = Lexer::new(source.to_string());
    lexer.tokenize().expect("the scanner never fails")
}

fn kinds(tokens: &[Token]) -> Vec<TokenType> {
    tokens.iter().map(|t| t.token_type).collect()
}

fn texts(tokens: &[Token]) -> Vec<String> {
    tokens.iter().map(|t| t.value.clone()).collect()
}

fn places(tokens: &[Token]) -> Vec<(usize, usize)> {
    tokens.iter().map(|t| (t.line, t.column)).collect()
}

#[test]
fn token_new_keeps_its_fields() {
    let token = Token::new(TokenType::Identifier, "abc".to_string(), 3, 7);
    assert_eq!(token.token_type, TokenType::Identifier);
    assert_eq!(token.value, "abc");
    assert_eq!(token.line, 3);
    assert_eq!(token.column, 7);
    let copy = token.duplicate();
    assert_eq!(copy.token_type, TokenType::Identifier);
    assert_eq!(copy.value, "abc");
    assert_eq!((copy.line, copy.column), (3, 7));
}

#[test]
fn empty_source_yields_only_the_end_marker() {
    let tokens = scan("");
    assert_eq!(kinds(&tokens), vec![TokenType::Eof]);
    assert_eq!(tokens[0].value, "");
    assert_eq!((tokens[0].line, tokens[0].column), (1, 1));
}

#[test]
fn unterminated_string_runs_to_the_end_of_input() {
    let tokens = scan("\"abc");
    assert_eq!(kinds(&tokens), vec![TokenType::String, TokenType::Eof]);
    assert_eq!(tokens[0].value, "abc");
    assert_eq!((tokens[0].line, tokens[0].column), (1, 5));
    assert_eq!((tokens[1].line, tokens[1].column), (1, 5));
}

#[test]
fn lone_quote_is_an_empty_string() {
    let tokens = scan("\"");
    assert_eq!(kinds(&tokens), vec![TokenType::String, TokenType::Eof]);
    assert_eq!(tokens[0].value, "");
    assert_eq!((tokens[0].line, tokens[0].column), (1, 2));
}

#[test]
fn terminated_strings_lose_their_quotes() {
    let tokens = scan("\"X\" 'why'");
    assert_eq!(
        kinds(&tokens),
        vec![TokenType::String, TokenType::Whitespace, TokenType::String, TokenType::Eof]
    );
    assert_eq!(texts(&tokens), vec!["X", " ", "why", ""]);
    assert_eq!(places(&tokens), vec![(1, 4), (1, 4), (1, 10), (1, 10)]);
}

#[test]
fn a_quote_of_the_other_kind_does_not_close_a_string() {
    let tokens = scan("\"it's\"");
    assert_eq!(kinds(&tokens), vec![TokenType::String, TokenType::Eof]);
    assert_eq!(tokens[0].value, "it's");
}

#[test]
fn backslash_takes_the_next_character_along() {
    let tokens = scan("\"a\\\"b\"c");
    assert_eq!(kinds(&tokens), vec![TokenType::String, TokenType::Identifier, TokenType::Eof]);
    assert_eq!(tokens[0].value, "a\\\"b");
    assert_eq!(tokens[1].value, "c");
}

#[test]
fn backslash_at_the_very_end_is_an_ordinary_character() {
    let tokens = scan("\"a\\");
    assert_eq!(kinds(&tokens), vec![TokenType::String, TokenType::Eof]);
    assert_eq!(tokens[0].value, "a\\");
}

#[test]
fn strings_may_span_lines_without_counting_them() {
    let tokens = scan("\"a\nb\"");
    assert_eq!(kinds(&tokens), vec![TokenType::String, TokenType::Eof]);
    assert_eq!(tokens[0].value, "a\nb");
    assert_eq!((tokens[0].line, tokens[0].column), (1, 6));
}

#[test]
fn template_literals_are_scanned_like_strings() {
    let tokens = scan("`a ${b}` `open");
    assert_eq!(
        kinds(&tokens),
        vec![
            TokenType::TemplateLiteral,
            TokenType::Whitespace,
            TokenType::TemplateLiteral,
            TokenType::Eof
        ]
    );
    assert_eq!(texts(&tokens), vec!["a ${b}", " ", "open", ""]);
}

#[test]
fn numbers_are_runs_of_digits_and_dots() {
    let tokens = scan("1.2.3 42 7.");
    assert_eq!(
        kinds(&tokens),
        vec![
            TokenType::Number,
            TokenType::Whitespace,
            TokenType::Number,
            TokenType::Whitespace,
            TokenType::Number,
            TokenType::Eof
        ]
    );
    assert_eq!(texts(&tokens), vec!["1.2.3", " ", "42", " ", "7.", ""]);
    assert_eq!(places(&tokens), vec![(1, 6), (1, 6), (1, 9), (1, 9), (1, 12), (1, 12)]);
}

#[test]
fn a_leading_dot_is_punctuation() {
    let tokens = scan(".5");
    assert_eq!(kinds(&tokens), vec![TokenType::Dot, TokenType::Number, TokenType::Eof]);
    assert_eq!(texts(&tokens), vec![".", "5", ""]);
}

#[test]
fn words_are_keywords_or_identifiers() {
    let tokens = scan("page pages _x9 Page");
    assert_eq!(
        kinds(&tokens),
        vec![
            TokenType::Page,
            TokenType::Whitespace,
            TokenType::Identifier,
            TokenType::Whitespace,
            TokenType::Identifier,
            TokenType::Whitespace,
            TokenType::Identifier,
            TokenType::Eof
        ]
    );
    assert_eq!(texts(&tokens), vec!["page", " ", "pages", " ", "_x9", " ", "Page", ""]);
}

#[test]
fn every_keyword_has_its_category() {
    let table = [
        ("page", TokenType::Page),
        ("component", TokenType::Component),
        ("style", TokenType::Style),
        ("event", TokenType::Event),
        ("state", TokenType::State),
        ("api", TokenType::Api),
        ("router", TokenType::Router),
        ("route", TokenType::Route),
        ("layout", TokenType::Layout),
        ("animation", TokenType::Animation),
        ("type", TokenType::Type),
        ("hook", TokenType::Hook),
        ("plugin", TokenType::Plugin),
        ("config", TokenType::Config),
        ("import", TokenType::Import),
        ("export", TokenType::Export),
        ("from", TokenType::From),
        ("as", TokenType::As),
        ("if", TokenType::If),
        ("else", TokenType::Else),
        ("for", TokenType::For),
        ("while", TokenType::While),
        ("function", TokenType::Function),
        ("async", TokenType::Async),
        ("await", TokenType::Await),
        ("return", TokenType::Return),
        ("const", TokenType::Const),
        ("let", TokenType::Let),
        ("var", TokenType::Var),
        ("true", TokenType::True),
        ("false", TokenType::False),
        ("null", TokenType::Null),
        ("undefined", TokenType::Undefined),
        ("class", TokenType::Class),
        ("extends", TokenType::Extends),
        ("implements", TokenType::Implements),
        ("interface", TokenType::Interface),
        ("enum", TokenType::Enum),
        ("namespace", TokenType::Namespace),
        ("render", TokenType::Render),
        ("computed", TokenType::Computed),
        ("watch", TokenType::Watch),
        ("mounted", TokenType::Mounted),
        ("unmounted", TokenType::Unmounted),
    ];
    for (word, kind) in table {
        assert_eq!(keyword_type(word), Some(kind));
        let tokens = scan(word);
        assert_eq!(kinds(&tokens), vec![kind, TokenType::Eof]);
        assert_eq!(tokens[0].value, word);
    }
    assert_eq!(keyword_type("default"), None);
    assert_eq!(keyword_type("on"), None);
    assert_eq!(keyword_type(""), None);
    assert_eq!(keyword_type("PAGE"), None);
}

#[test]
fn two_character_operators_win_over_their_prefixes() {
    let tokens = scan("==>=!=<=</=>&&||");
    assert_eq!(
        kinds(&tokens),
        vec![
            TokenType::Equal,
            TokenType::GreaterEqual,
            TokenType::NotEqual,
            TokenType::LessEqual,
            TokenType::ClosingTagStart,
            TokenType::Arrow,
            TokenType::And,
            TokenType::Or,
            TokenType::Eof
        ]
    );
    assert_eq!(texts(&tokens), vec!["==", ">=", "!=", "<=", "</", "=>", "&&", "||", ""]);
    assert_eq!(
        places(&tokens),
        vec![(1, 1), (1, 3), (1, 5), (1, 7), (1, 9), (1, 11), (1, 13), (1, 15), (1, 17)]
    );
}

#[test]
fn one_character_marks_have_their_own_categories() {
    let tokens = scan("=!<>+-*/%&|(){}[];,.:?");
    assert_eq!(
        kinds(&tokens),
        vec![
            TokenType::Assign,
            TokenType::Not,
            TokenType::OpeningTagStart,
            TokenType::TagEnd,
            TokenType::Plus,
            TokenType::Minus,
            TokenType::Multiply,
            TokenType::Divide,
            TokenType::Modulo,
            TokenType::And,
            TokenType::Pipe,
            TokenType::LeftParen,
            TokenType::RightParen,
            TokenType::LeftBrace,
            TokenType::RightBrace,
            TokenType::LeftBracket,
            TokenType::RightBracket,
            TokenType::Semicolon,
            TokenType::Comma,
            TokenType::Dot,
            TokenType::Colon,
            TokenType::Question,
            TokenType::Eof
        ]
    );
    assert_eq!(tokens[9].value, "&");
    assert_eq!(tokens[10].value, "|");
    assert_eq!((tokens[22].line, tokens[22].column), (1, 23));
}

#[test]
fn symbol_at_reads_the_lookahead() {
    assert_eq!(symbol_at('=', Some('=')), Some((TokenType::Equal, 2)));
    assert_eq!(symbol_at('=', Some('>')), Some((TokenType::Arrow, 2)));
    assert_eq!(symbol_at('=', Some('x')), Some((TokenType::Assign, 1)));
    assert_eq!(symbol_at('=', None), Some((TokenType::Assign, 1)));
    assert_eq!(symbol_at('<', Some('/')), Some((TokenType::ClosingTagStart, 2)));
    assert_eq!(symbol_at('<', None), Some((TokenType::OpeningTagStart, 1)));
    assert_eq!(symbol_at('&', None), Some((TokenType::And, 1)));
    assert_eq!(symbol_at('|', Some('|')), Some((TokenType::Or, 2)));
    assert_eq!(symbol_at('#', Some('#')), None);
    assert_eq!(symbol_at('a', None), None);
}

#[test]
fn unknown_characters_are_passed_over() {
    let tokens = scan("a#@b$");
    assert_eq!(kinds(&tokens), vec![TokenType::Identifier, TokenType::Identifier, TokenType::Eof]);
    assert_eq!(texts(&tokens), vec!["a", "b", ""]);
    assert_eq!(places(&tokens), vec![(1, 2), (1, 5), (1, 6)]);
}

#[test]
fn whitespace_and_line_feeds_are_tokens() {
    let tokens = scan("a\n\tb \r");
    assert_eq!(
        kinds(&tokens),
        vec![
            TokenType::Identifier,
            TokenType::Newline,
            TokenType::Whitespace,
            TokenType::Identifier,
            TokenType::Whitespace,
            TokenType::Whitespace,
            TokenType::Eof
        ]
    );
    assert_eq!(texts(&tokens), vec!["a", "\n", "\t", "b", " ", "\r", ""]);
    assert_eq!(places(&tokens), vec![(1, 2), (1, 2), (2, 1), (2, 3), (2, 3), (2, 4), (2, 5)]);
}

#[test]
fn line_comments_stop_before_the_line_feed() {
    let tokens = scan("// hi\nx");
    assert_eq!(
        kinds(&tokens),
        vec![TokenType::Comment, TokenType::Newline, TokenType::Identifier, TokenType::Eof]
    );
    assert_eq!(texts(&tokens), vec!["// hi", "\n", "x", ""]);
    assert_eq!(places(&tokens), vec![(1, 1), (1, 6), (2, 2), (2, 2)]);
}

#[test]
fn line_comment_at_the_end_of_input() {
    let tokens = scan("//");
    assert_eq!(kinds(&tokens), vec![TokenType::Comment, TokenType::Eof]);
    assert_eq!(tokens[0].value, "//");
    assert_eq!((tokens[1].line, tokens[1].column), (1, 3));
}

#[test]
fn block_comments_count_the_lines_they_span() {
    let tokens = scan("/* a\nb */x");
    assert_eq!(kinds(&tokens), vec![TokenType::Comment, TokenType::Identifier, TokenType::Eof]);
    assert_eq!(tokens[0].value, "/* a\nb */");
    assert_eq!((tokens[0].line, tokens[0].column), (2, 5));
    assert_eq!(tokens[1].value, "x");
    assert_eq!((tokens[1].line, tokens[1].column), (2, 6));
}

#[test]
fn unterminated_block_comment_runs_to_the_end_of_input() {
    let tokens = scan("/* abc");
    assert_eq!(kinds(&tokens), vec![TokenType::Comment, TokenType::Eof]);
    assert_eq!(tokens[0].value, "/* abc");
    assert_eq!((tokens[1].line, tokens[1].column), (1, 7));
}

#[test]
fn the_opener_of_a_block_comment_does_not_close_it() {
    let tokens = scan("/*/ x */y");
    assert_eq!(kinds(&tokens), vec![TokenType::Comment, TokenType::Identifier, TokenType::Eof]);
    assert_eq!(tokens[0].value, "/*/ x */");
    assert_eq!(tokens[1].value, "y");
}

#[test]
fn shortest_block_comments() {
    let tokens = scan("/**/");
    assert_eq!(kinds(&tokens), vec![TokenType::Comment, TokenType::Eof]);
    assert_eq!(tokens[0].value, "/**/");
    let tokens = scan("/*");
    assert_eq!(kinds(&tokens), vec![TokenType::Comment, TokenType::Eof]);
    assert_eq!(tokens[0].value, "/*");
}

#[test]
fn a_slash_alone_divides() {
    let tokens = scan("a / b");
    assert_eq!(
        kinds(&tokens),
        vec![
            TokenType::Identifier,
            TokenType::Whitespace,
            TokenType::Divide,
            TokenType::Whitespace,
            TokenType::Identifier,
            TokenType::Eof
        ]
    );
}

#[test]
fn text_beyond_ascii_is_scanned_by_characters() {
    let tokens = scan("été \"naïve\" 日本");
    assert_eq!(
        kinds(&tokens),
        vec![
            TokenType::Identifier,
            TokenType::Whitespace,
            TokenType::String,
            TokenType::Whitespace,
            TokenType::Identifier,
            TokenType::Eof
        ]
    );
    assert_eq!(texts(&tokens), vec!["été", " ", "naïve", " ", "日本", ""]);
    assert_eq!(places(&tokens), vec![(1, 4), (1, 4), (1, 12), (1, 12), (1, 15), (1, 15)]);
}

#[test]
fn a_tag_with_an_attribute() {
    let tokens = scan("<page title=\"X\"></page>");
    assert_eq!(
        kinds(&tokens),
        vec![
            TokenType::OpeningTagStart,
            TokenType::Page,
            TokenType::Whitespace,
            TokenType::Identifier,
            TokenType::Assign,
            TokenType::String,
            TokenType::TagEnd,
            TokenType::ClosingTagStart,
            TokenType::Page,
            TokenType::TagEnd,
            TokenType::Eof
        ]
    );
    assert_eq!(tokens[3].value, "title");
    assert_eq!(tokens[5].value, "X");
}

#[test]
fn scanning_again_finds_only_the_end_marker() {
    let mut lexer = Lexer::new("a b".to_string());
    let first = lexer.tokenize().unwrap();
    assert_eq!(first.len(), 4);
    let second = lexer.tokenize().unwrap();
    assert_eq!(kinds(&second), vec![TokenType::Eof]);
    assert_eq!((second[0].line, second[0].column), (1, 4));
}

#[test]
fn the_last_token_is_always_the_end_marker() {
    for source in ["", "x", "\"", "/*", "//", "`", "1.", "page {", "\n\n", "#"] {
        let tokens = scan(source);
        let last = tokens.last().unwrap();
        assert_eq!(last.token_type, TokenType::Eof);
        assert_eq!(last.value, "");
        assert!(tokens[..tokens.len() - 1].iter().all(|t| t.token_type != TokenType::Eof));
    }
}

#[test]
fn digits_are_the_ascii_ones() {
    assert!(is_ascii_digit('0'));
    assert!(is_ascii_digit('9'));
    assert!(!is_ascii_digit('a'));
    assert!(!is_ascii_digit('/'));
    assert!(!is_ascii_digit(':'));
    assert!(!is_ascii_digit('٣'));
}

#[test]
fn chars_of_lists_the_characters() {
    assert_eq!(chars_of(""), Vec::<char>::new());
    assert_eq!(chars_of("aé日"), vec!['a', 'é', '日']);
}

#[test]
fn string_of_joins_the_characters() {
    assert_eq!(string_of(&[]), "");
    assert_eq!(string_of(&['a', 'é', '日', '\n']), "aé日\n");
    assert_eq!(string_of(&chars_of("round trip")), "round trip");
}

#[test]
fn classify_goes_by_the_first_two_characters() {
    assert_eq!(classify('\n', None, true, false), LexemeClass::Newline);
    assert_eq!(classify(' ', Some('/'), true, false), LexemeClass::Whitespace);
    assert_eq!(classify('/', Some('/'), false, false), LexemeClass::LineComment);
    assert_eq!(classify('/', Some('*'), false, false), LexemeClass::BlockComment);
    assert_eq!(classify('/', Some('x'), false, false), LexemeClass::Mark);
    assert_eq!(classify('/', None, false, false), LexemeClass::Mark);
    assert_eq!(classify('"', None, false, false), LexemeClass::Quoted);
    assert_eq!(classify('\'', Some('a'), false, false), LexemeClass::Quoted);
    assert_eq!(classify('`', None, false, false), LexemeClass::Template);
    assert_eq!(classify('7', Some('.'), false, false), LexemeClass::Number);
    assert_eq!(classify('a', None, false, true), LexemeClass::Word);
    assert_eq!(classify('_', None, false, false), LexemeClass::Word);
    assert_eq!(classify('a', None, false, false), LexemeClass::Mark);
    assert_eq!(classify('=', Some('='), false, false), LexemeClass::Mark);
    assert_eq!(classify('#', None, false, false), LexemeClass::Mark);
}

#[test]
fn whitespace_wins_over_every_other_class() {
    assert_eq!(classify('/', Some('/'), true, true), LexemeClass::Whitespace);
    assert_eq!(classify('7', None, true, false), LexemeClass::Whitespace);
    assert_eq!(classify('7', None, false, true), LexemeClass::Number);
}

#[test]
fn runs_go_by_their_character_class() {
    assert!(in_run(Run::Number, '7', true));
    assert!(in_run(Run::Number, '.', false));
    assert!(!in_run(Run::Number, 'a', true));
    assert!(!in_run(Run::Number, '٣', true));
    assert!(in_run(Run::Word, 'a', true));
    assert!(in_run(Run::Word, '_', false));
    assert!(!in_run(Run::Word, '-', false));
    assert!(in_run(Run::LineComment, 'x', false));
    assert!(in_run(Run::LineComment, '\r', false));
    assert!(!in_run(Run::LineComment, '\n', false));
}

#[test]
fn words_go_on_with_digits_of_any_script() {
    let tokens = scan("a٣_1 x");
    assert_eq!(tokens[0].token_type, TokenType::Identifier);
    assert_eq!(tokens[0].value, "a٣_1");
}
