use emadocs_compiler::ast::{ASTNode, Attributes};
use emadocs_compiler::lexer::Lexer;
use emadocs_compiler::parser::Parser;
use emadocs_compiler::token::{Token, TokenType};

fn parse(source: &str) -> Vec<ASTNode> {
    let mut lexer = Lexer::new(source.to_string());
    let tokens = lexer.tokenize().expect("the scanner never fails");
    parse_tokens(tokens)
}

fn parse_tokens(tokens: Vec<Token>) -> Vec<ASTNode> {
    let mut parser = Parser::new(tokens);
    match parser.parse().expect("the parser never fails") {
        ASTNode::Program(statements) => statements,
        other => panic!("the root is a program, not {:?}", other),
    }
}

fn token(kind: TokenType, text: &str) -> Token {
    Token::new(kind, text.to_string(), 1, 1)
}

#[test]
fn attributes_store_and_replace() {
    let mut attributes = Attributes::new();
    assert!(attributes.get("title").is_none());
    attributes.insert("title".to_string(), "A".to_string());
    attributes.insert("lang".to_string(), "en".to_string());
    assert_eq!(attributes.get("title").map(|s| s.as_str()), Some("A"));
    assert_eq!(attributes.get("lang").map(|s| s.as_str()), Some("en"));
    attributes.insert("title".to_string(), "B".to_string());
    assert_eq!(attributes.get("title").map(|s| s.as_str()), Some("B"));
    assert_eq!(attributes.get("lang").map(|s| s.as_str()), Some("en"));
    assert!(attributes.get("Title").is_none());
    assert!(attributes.get("").is_none());
}

#[test]
fn empty_source_is_an_empty_program() {
    assert!(parse("").is_empty());
    assert!(parse("   \n // nothing here\n").is_empty());
    assert!(parse_tokens(Vec::new()).is_empty());
}

#[test]
fn page_tag_with_title_attribute() {
    let program = parse("<page title=\"X\"></page>");
    assert_eq!(program.len(), 1);
    match &program[0] {
        ASTNode::Page { name, attributes, body } => {
            assert_eq!(name, "");
            assert_eq!(attributes.get("title").map(|s| s.as_str()), Some("X"));
            assert!(body.is_empty());
        },
        other => panic!("expected a page, found {:?}", other),
    }
}

#[test]
fn page_with_name_attributes_and_body() {
    let program = parse("page Home title = \"Hi\" lang=\"en\" title=\"Ho\" {\n  state s { }\n}\n");
    assert_eq!(program.len(), 1);
    match &program[0] {
        ASTNode::Page { name, attributes, body } => {
            assert_eq!(name, "Home");
            assert_eq!(attributes.get("title").map(|s| s.as_str()), Some("Ho"));
            assert_eq!(attributes.get("lang").map(|s| s.as_str()), Some("en"));
            assert_eq!(body.len(), 1);
            assert!(matches!(&body[0], ASTNode::State { name, properties } if name == "s" && properties.is_empty()));
        },
        other => panic!("expected a page, found {:?}", other),
    }
}

#[test]
fn attribute_without_a_string_value_is_dropped() {
    let program = parse("page a = 1 b c = \"v\" { }");
    assert_eq!(program.len(), 1);
    match &program[0] {
        ASTNode::Page { name, attributes, body } => {
            assert_eq!(name, "");
            assert!(attributes.get("a").is_none());
            assert!(attributes.get("b").is_none());
            assert_eq!(attributes.get("c").map(|s| s.as_str()), Some("v"));
            assert!(body.is_empty());
        },
        other => panic!("expected a page, found {:?}", other),
    }
}

#[test]
fn component_with_name_and_block() {
    let program = parse("component Foo { }");
    assert_eq!(program.len(), 1);
    match &program[0] {
        ASTNode::Component { name, type_params, props, events, state, methods, render } => {
            assert_eq!(name, "Foo");
            assert!(type_params.is_empty());
            assert!(props.is_empty() && events.is_empty() && state.is_empty());
            assert!(methods.is_empty());
            assert!(render.is_none());
        },
        other => panic!("expected a component, found {:?}", other),
    }
}

#[test]
fn component_block_is_parsed_and_dropped() {
    let program = parse("component Foo { state inner { } } state outer { }");
    assert_eq!(program.len(), 2);
    assert!(matches!(&program[0], ASTNode::Component { name, .. } if name == "Foo"));
    assert!(matches!(&program[1], ASTNode::State { name, .. } if name == "outer"));
}

#[test]
fn component_type_parameters_from_source() {
    let program = parse("component Box<T, U> { }");
    assert_eq!(program.len(), 1);
    match &program[0] {
        ASTNode::Component { name, type_params, .. } => {
            assert_eq!(name, "Box");
            assert_eq!(type_params, &vec!["T".to_string(), "U".to_string()]);
        },
        other => panic!("expected a component, found {:?}", other),
    }
}

#[test]
fn component_type_parameters_from_comparison_tokens() {
    let tokens = vec![
        token(TokenType::Component, "component"),
        token(TokenType::Identifier, "Box"),
        token(TokenType::Less, "<"),
        token(TokenType::Identifier, "T"),
        token(TokenType::Comma, ","),
        token(TokenType::Number, "1"),
        token(TokenType::Identifier, "U"),
        token(TokenType::Greater, ">"),
        token(TokenType::LeftBrace, "{"),
        token(TokenType::RightBrace, "}"),
        token(TokenType::Eof, ""),
    ];
    let program = parse_tokens(tokens);
    assert_eq!(program.len(), 1);
    match &program[0] {
        ASTNode::Component { name, type_params, .. } => {
            assert_eq!(name, "Box");
            assert_eq!(type_params, &vec!["T".to_string(), "U".to_string()]);
        },
        other => panic!("expected a component, found {:?}", other),
    }
}

#[test]
fn unclosed_type_parameters_run_to_the_end() {
    let program = parse("component Box<T state s { }");
    assert_eq!(program.len(), 1);
    match &program[0] {
        ASTNode::Component { name, type_params, .. } => {
            assert_eq!(name, "Box");
            assert_eq!(type_params, &vec!["T".to_string(), "s".to_string()]);
        },
        other => panic!("expected a component, found {:?}", other),
    }
}

#[test]
fn style_state_api_router_animation() {
    let program = parse("style card { } state s { } api Users { } router { } animation spin { }");
    assert_eq!(program.len(), 5);
    assert!(matches!(&program[0], ASTNode::Style { selector, rules } if selector == "card" && rules.is_empty()));
    assert!(matches!(&program[1], ASTNode::State { name, properties } if name == "s" && properties.is_empty()));
    match &program[2] {
        ASTNode::Api { name, properties, methods } => {
            assert_eq!(name, "Users");
            assert!(properties.get("anything").is_none());
            assert!(methods.is_empty());
        },
        other => panic!("expected an api, found {:?}", other),
    }
    assert!(matches!(&program[3], ASTNode::Router { routes } if routes.is_empty()));
    assert!(matches!(&program[4], ASTNode::Animation { name, keyframes } if name == "spin" && keyframes.is_empty()));
}

#[test]
fn event_with_and_without_target() {
    let program = parse("event click on button { } event load { } event on on { } event key on");
    assert_eq!(program.len(), 4);
    assert!(matches!(&program[0], ASTNode::Event { event_type, target, body }
        if event_type == "click" && target == "button" && body.is_empty()));
    assert!(matches!(&program[1], ASTNode::Event { event_type, target, .. }
        if event_type == "load" && target.is_empty()));
    assert!(matches!(&program[2], ASTNode::Event { event_type, target, .. }
        if event_type == "on" && target.is_empty()));
    assert!(matches!(&program[3], ASTNode::Event { event_type, target, .. }
        if event_type == "key" && target.is_empty()));
}

#[test]
fn layout_renders_the_first_statement_of_its_block() {
    let program = parse("layout Main { x state first { } state second { } } layout Bare { } layout None");
    assert_eq!(program.len(), 3);
    match &program[0] {
        ASTNode::Layout { name, render } => {
            assert_eq!(name, "Main");
            let inner = render.as_ref().expect("the layout renders something");
            assert!(matches!(&**inner, ASTNode::State { name, .. } if name == "first"));
        },
        other => panic!("expected a layout, found {:?}", other),
    }
    assert!(matches!(&program[1], ASTNode::Layout { name, render } if name == "Bare" && render.is_none()));
    assert!(matches!(&program[2], ASTNode::Layout { name, render } if name == "None" && render.is_none()));
}

#[test]
fn type_with_optional_definition_mark_and_semicolon() {
    let program = parse("type Id = ; type Name; type Bare type = state s { }");
    assert_eq!(program.len(), 5);
    assert!(matches!(&program[0], ASTNode::Type { name, definition } if name == "Id" && definition.is_none()));
    assert!(matches!(&program[1], ASTNode::Type { name, .. } if name == "Name"));
    assert!(matches!(&program[2], ASTNode::Type { name, .. } if name == "Bare"));
    assert!(matches!(&program[3], ASTNode::Type { name, .. } if name.is_empty()));
    assert!(matches!(&program[4], ASTNode::State { name, .. } if name == "s"));
}

#[test]
fn type_definition_is_not_read() {
    let program = parse("type Id = string;");
    assert_eq!(program.len(), 1);
    assert!(matches!(&program[0], ASTNode::Type { name, definition } if name == "Id" && definition.is_none()));
}

#[test]
fn hook_with_parameters_and_body() {
    let program = parse("hook fetch(url, options) { state cache { } } hook bare");
    assert_eq!(program.len(), 2);
    match &program[0] {
        ASTNode::Hook { name, parameters, body } => {
            assert_eq!(name, "fetch");
            assert!(parameters.is_empty());
            assert_eq!(body.len(), 1);
            assert!(matches!(&body[0], ASTNode::State { name, .. } if name == "cache"));
        },
        other => panic!("expected a hook, found {:?}", other),
    }
    assert!(matches!(&program[1], ASTNode::Hook { name, body, .. } if name == "bare" && body.is_empty()));
}

#[test]
fn hook_parameters_pass_over_other_tokens() {
    let program = parse("hook f(a: 1, \"s\" b) { }");
    assert_eq!(program.len(), 1);
    assert!(matches!(&program[0], ASTNode::Hook { name, body, .. } if name == "f" && body.is_empty()));
}

#[test]
fn plugin_and_config_blocks_are_parsed_and_dropped() {
    let program = parse("page { plugin Auth { key state inner { } } config { debug } state after { } }");
    assert_eq!(program.len(), 1);
    match &program[0] {
        ASTNode::Page { body, .. } => {
            assert_eq!(body.len(), 3);
            assert!(matches!(&body[0], ASTNode::Plugin { name, .. } if name == "Auth"));
            assert!(matches!(&body[1], ASTNode::Config { .. }));
            assert!(matches!(&body[2], ASTNode::State { name, .. } if name == "after"));
        },
        other => panic!("expected a page, found {:?}", other),
    }
}

#[test]
fn import_with_two_specifiers_and_a_source() {
    let program = parse("import a, b from \"mod\"");
    assert_eq!(program.len(), 1);
    match &program[0] {
        ASTNode::Import { specifiers, source } => {
            assert_eq!(specifiers, &vec!["a".to_string(), "b".to_string()]);
            assert_eq!(source, "mod");
        },
        other => panic!("expected an import, found {:?}", other),
    }
}

#[test]
fn import_without_from_runs_to_the_end() {
    let program = parse("import a b, , c");
    assert_eq!(program.len(), 1);
    match &program[0] {
        ASTNode::Import { specifiers, source } => {
            assert_eq!(specifiers, &vec!["a".to_string(), "b".to_string(), "c".to_string()]);
            assert_eq!(source, "");
        },
        other => panic!("expected an import, found {:?}", other),
    }
}

#[test]
fn import_passes_over_what_is_no_specifier() {
    let program = parse("import \"x\" 1 { a } from from \"m\"");
    assert_eq!(program.len(), 1);
    match &program[0] {
        ASTNode::Import { specifiers, source } => {
            assert_eq!(specifiers, &vec!["a".to_string()]);
            assert_eq!(source, "");
        },
        other => panic!("expected an import, found {:?}", other),
    }
}

#[test]
fn import_source_must_be_a_string() {
    let program = parse("import a from b");
    assert_eq!(program.len(), 1);
    match &program[0] {
        ASTNode::Import { specifiers, source } => {
            assert_eq!(specifiers, &vec!["a".to_string()]);
            assert_eq!(source, "");
        },
        other => panic!("expected an import, found {:?}", other),
    }
}

#[test]
fn export_with_and_without_default() {
    let program = parse("export default App from 'app' export a, b");
    assert_eq!(program.len(), 2);
    match &program[0] {
        ASTNode::Export { specifiers, source, is_default } => {
            assert_eq!(specifiers, &vec!["App".to_string()]);
            assert_eq!(source, "app");
            assert!(*is_default);
        },
        other => panic!("expected an export, found {:?}", other),
    }
    match &program[1] {
        ASTNode::Export { specifiers, source, is_default } => {
            assert_eq!(specifiers, &vec!["a".to_string(), "b".to_string()]);
            assert_eq!(source, "");
            assert!(!*is_default);
        },
        other => panic!("expected an export, found {:?}", other),
    }
}

#[test]
fn unknown_tokens_are_skipped_one_at_a_time() {
    let program = parse("x 1 \"s\" = state a { } ) route if");
    assert_eq!(program.len(), 1);
    assert!(matches!(&program[0], ASTNode::State { name, .. } if name == "a"));
}

#[test]
fn unknown_tokens_in_a_block_do_not_swallow_its_closing_brace() {
    let program = parse("page { x } state after { }");
    assert_eq!(program.len(), 2);
    assert!(matches!(&program[0], ASTNode::Page { body, .. } if body.is_empty()));
    assert!(matches!(&program[1], ASTNode::State { name, .. } if name == "after"));
}

#[test]
fn blocks_nest() {
    let program = parse("page { style a { state b { api c { } } } router { } }");
    assert_eq!(program.len(), 1);
    match &program[0] {
        ASTNode::Page { body, .. } => {
            assert_eq!(body.len(), 2);
            match &body[0] {
                ASTNode::Style { selector, rules } => {
                    assert_eq!(selector, "a");
                    assert_eq!(rules.len(), 1);
                    match &rules[0] {
                        ASTNode::State { name, properties } => {
                            assert_eq!(name, "b");
                            assert_eq!(properties.len(), 1);
                            assert!(matches!(&properties[0], ASTNode::Api { name, .. } if name == "c"));
                        },
                        other => panic!("expected a state, found {:?}", other),
                    }
                },
                other => panic!("expected a style, found {:?}", other),
            }
            assert!(matches!(&body[1], ASTNode::Router { .. }));
        },
        other => panic!("expected a page, found {:?}", other),
    }
}

#[test]
fn a_block_may_end_with_the_input() {
    let program = parse("page { state s {");
    assert_eq!(program.len(), 1);
    match &program[0] {
        ASTNode::Page { body, .. } => {
            assert_eq!(body.len(), 1);
            assert!(matches!(&body[0], ASTNode::State { name, .. } if name == "s"));
        },
        other => panic!("expected a page, found {:?}", other),
    }
}

#[test]
fn a_keyword_alone_is_a_declaration_without_a_name() {
    let program = parse("component style event state api router layout animation type hook plugin config page");
    assert_eq!(program.len(), 13);
    assert!(matches!(&program[0], ASTNode::Component { name, .. } if name.is_empty()));
    assert!(matches!(&program[1], ASTNode::Style { selector, .. } if selector.is_empty()));
    assert!(matches!(&program[2], ASTNode::Event { event_type, .. } if event_type.is_empty()));
    assert!(matches!(&program[3], ASTNode::State { name, .. } if name.is_empty()));
    assert!(matches!(&program[4], ASTNode::Api { name, .. } if name.is_empty()));
    assert!(matches!(&program[5], ASTNode::Router { .. }));
    assert!(matches!(&program[6], ASTNode::Layout { name, .. } if name.is_empty()));
    assert!(matches!(&program[7], ASTNode::Animation { name, .. } if name.is_empty()));
    assert!(matches!(&program[8], ASTNode::Type { name, .. } if name.is_empty()));
    assert!(matches!(&program[9], ASTNode::Hook { name, .. } if name.is_empty()));
    assert!(matches!(&program[10], ASTNode::Plugin { name, .. } if name.is_empty()));
    assert!(matches!(&program[11], ASTNode::Config { .. }));
    assert!(matches!(&program[12], ASTNode::Page { name, .. } if name.is_empty()));
    assert!(matches!(&parse("import")[0], ASTNode::Import { specifiers, source }
        if specifiers.is_empty() && source.is_empty()));
    assert!(matches!(&parse("export")[0], ASTNode::Export { specifiers, source, is_default }
        if specifiers.is_empty() && source.is_empty() && !*is_default));
}

#[test]
fn page_attributes_run_up_to_the_opening_brace() {
    let program = parse("page a state b style c { } state d { }");
    assert_eq!(program.len(), 2);
    assert!(matches!(&program[0], ASTNode::Page { name, body, .. } if name == "a" && body.is_empty()));
    assert!(matches!(&program[1], ASTNode::State { name, .. } if name == "d"));
}

#[test]
fn import_specifiers_run_up_to_from() {
    let program = parse("import a state b from 'm' state c");
    assert_eq!(program.len(), 2);
    match &program[0] {
        ASTNode::Import { specifiers, source } => {
            assert_eq!(specifiers, &vec!["a".to_string(), "b".to_string()]);
            assert_eq!(source, "m");
        },
        other => panic!("expected an import, found {:?}", other),
    }
    assert!(matches!(&program[1], ASTNode::State { name, .. } if name == "c"));
}

#[test]
fn parsing_stops_at_the_end_marker() {
    let tokens = vec![
        token(TokenType::State, "state"),
        token(TokenType::Identifier, "a"),
        token(TokenType::Eof, ""),
        token(TokenType::State, "state"),
        token(TokenType::Identifier, "b"),
    ];
    let program = parse_tokens(tokens);
    assert_eq!(program.len(), 1);
    assert!(matches!(&program[0], ASTNode::State { name, .. } if name == "a"));
}

#[test]
fn tokens_without_an_end_marker_are_read_to_the_last() {
    let tokens = vec![
        token(TokenType::State, "state"),
        token(TokenType::Whitespace, " "),
        token(TokenType::Comment, "// c"),
        token(TokenType::Newline, "\n"),
        token(TokenType::Identifier, "a"),
    ];
    let program = parse_tokens(tokens);
    assert_eq!(program.len(), 1);
    assert!(matches!(&program[0], ASTNode::State { name, .. } if name == "a"));
}

#[test]
fn parsing_again_finds_nothing() {
    let mut lexer = Lexer::new("state a { }".to_string());
    let mut parser = Parser::new(lexer.tokenize().unwrap());
    assert!(matches!(parser.parse().unwrap(), ASTNode::Program(s) if s.len() == 1));
    assert!(matches!(parser.parse().unwrap(), ASTNode::Program(s) if s.is_empty()));
}

#[test]
fn comments_between_tokens_are_ignored() {
    let program = parse("component /* the name */ Foo // then the block\n { }");
    assert_eq!(program.len(), 1);
    assert!(matches!(&program[0], ASTNode::Component { name, .. } if name == "Foo"));
}
