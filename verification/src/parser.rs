//! The parser: recursive descent over the significant tokens, with one routine per
//! construct and one shared routine for blocks.

use vstd::prelude::*;
use crate::ast::{
    lemma_node_views_index, lemma_node_views_push, node_views, texts, ASTNode, Attributes, Node,
    Pairs,
};
use crate::grammar::{
    animation, api, at_end, attributes, block, braced, check, closes, component, config,
    declarations, event, event_target, export, hook, import, is_trivia, layout, name_list,
    optional, optional_name, page, parameters, plugin, program, remaining, router, significant,
    source_clause, state, statement, style, type_decl, type_params, NameList, Tokens,
};
use crate::text::same_text;
use crate::token::{token_views, Token, TokenType};

verus! {

/// Whether a token of category `kind` is trivia.
fn trivia(kind: TokenType) -> (r: bool)
    ensures
        r == is_trivia(kind),
{
    kind == TokenType::Whitespace || kind == TokenType::Newline || kind == TokenType::Comment
}

/// Whether a token of category `kind` ends a list of sort `list`.
fn ends_list(list: NameList, kind: TokenType) -> (r: bool)
    ensures
        r == closes(list, kind),
{
    match list {
        NameList::Specifiers => kind == TokenType::From,
        NameList::TypeParams => kind == TokenType::Greater || kind == TokenType::TagEnd,
        NameList::Parameters => kind == TokenType::RightParen,
    }
}

/// A recursive-descent parser with one token of lookahead.
pub struct Parser {
    tokens: Vec<Token>,
    current: usize,
}

impl Parser {
    /// The tokens that the parser reads.
    pub closed spec fn tokens(&self) -> Tokens {
        token_views(self.tokens@)
    }

    /// The index of the next token to read.
    pub closed spec fn position(&self) -> nat {
        self.current as nat
    }

    /// The parser's place lies within its tokens.
    pub closed spec fn well_formed(&self) -> bool {
        self.current <= self.tokens.len()
    }

    /// `self` is what `before` becomes by consuming `used` tokens.
    spec fn follows(&self, before: &Self, used: nat) -> bool {
        &&& self.well_formed()
        &&& self.tokens == before.tokens
        &&& self.current == before.current + used
    }

    /// A parser at the first of the significant tokens among `tokens`.
    pub fn new(tokens: Vec<Token>) -> (parser: Self)
        ensures
            parser.well_formed(),
            parser.tokens() == significant(token_views(tokens@)),
            parser.position() == 0,
    {
        let ghost all = token_views(tokens@);
        let mut kept: Vec<Token> = Vec::new();
        let mut i: usize = 0;
        assert(all.take(0) =~= Seq::empty());
        reveal(Seq::filter);
        assert(token_views(kept@) =~= significant(all.take(0)));
        while i < tokens.len()
            invariant
                i <= tokens.len(),
                all == token_views(tokens@),
                token_views(kept@) == significant(all.take(i as int)),
            decreases tokens.len() - i,
        {
            let ghost before = kept@;
            reveal(Seq::filter);
            assert(all.take(i + 1).drop_last() =~= all.take(i as int));
            assert(all.take(i + 1).last() == tokens[i as int]@);
            if !trivia(tokens[i].token_type) {
                kept.push(tokens[i].duplicate());
                assert(token_views(kept@) =~= token_views(before).push(tokens[i as int]@));
            }
            i += 1;
        }
        assert(all.take(i as int) =~= all);
        Self { tokens: kept, current: 0 }
    }

    /// Parses from the parser's place to the end of input. The result is always `Ok`: the
    /// program whose declarations are those found, in order.
    pub fn parse(&mut self) -> (result: Result<ASTNode, String>)
        requires
            old(self).well_formed(),
        ensures
            final(self).well_formed(),
            final(self).tokens() == old(self).tokens(),
            at_end(final(self).tokens(), final(self).position()),
            result matches Ok(node) && node@ == program(old(self).tokens(), old(self).position()),
    {
        let ghost ts = self.tokens();
        let ghost start = self.position();
        let mut statements: Vec<ASTNode> = Vec::new();
        assert(node_views(statements@) =~= Seq::empty());
        while !self.is_at_end()
            invariant
                self.well_formed(),
                self.tokens() == ts,
                start <= self.position(),
                declarations(ts, start) == node_views(statements@) + declarations(
                    ts,
                    self.position(),
                ),
            decreases remaining(ts, self.position()),
        {
            let ghost at = self.position();
            let ghost before = statements@;
            match self.parse_statement() {
                Some(statement) => {
                    statements.push(statement);
                    proof {
                        lemma_node_views_push(before, statement);
                    }
                    assert(declarations(ts, at) == seq![statement@] + declarations(
                        ts,
                        self.position(),
                    ));
                    assert(declarations(ts, start) =~= node_views(statements@) + declarations(
                        ts,
                        self.position(),
                    ));
                },
                None => {},
            }
        }
        assert(declarations(ts, start) =~= node_views(statements@));
        Ok(ASTNode::Program(statements))
    }

    /// Whether no token is left to read.
    fn is_at_end(&self) -> (r: bool)
        requires
            self.well_formed(),
        ensures
            r == at_end(self.tokens(), self.position()),
    {
        self.current >= self.tokens.len() || self.tokens[self.current].token_type == TokenType::Eof
    }

    /// The next token, if one is left.
    fn peek(&self) -> (token: Option<&Token>)
        requires
            self.well_formed(),
        ensures
            match token {
                Some(t) => !at_end(self.tokens(), self.position()) && t@ == self.tokens()[self.position() as int],
                None => at_end(self.tokens(), self.position()),
            },
    {
        if self.is_at_end() {
            None
        } else {
            Some(&self.tokens[self.current])
        }
    }

    /// The token that was consumed last, if any was.
    fn previous(&self) -> (token: Option<&Token>)
        requires
            self.well_formed(),
        ensures
            match token {
                Some(t) => self.position() > 0 && t@ == self.tokens()[self.position() - 1],
                None => self.position() == 0,
            },
    {
        if self.current == 0 {
            None
        } else {
            Some(&self.tokens[self.current - 1])
        }
    }

    /// Consumes one token, unless none is left.
    fn advance(&mut self)
        requires
            old(self).well_formed(),
        ensures
            final(self).follows(
                old(self),
                if at_end(old(self).tokens(), old(self).position()) {
                    0
                } else {
                    1
                },
            ),
    {
        if !self.is_at_end() {
            self.current += 1;
        }
    }

    /// Whether the next token has category `token_type`.
    fn check(&self, token_type: TokenType) -> (r: bool)
        requires
            self.well_formed(),
        ensures
            r == check(self.tokens(), self.position(), token_type),
    {
        if self.is_at_end() {
            false
        } else {
            self.tokens[self.current].token_type == token_type
        }
    }

    /// Whether a token of category `token_type` stands behind the next one.
    fn check_next(&self, token_type: TokenType) -> (r: bool)
        requires
            self.well_formed(),
        ensures
            r == check(self.tokens(), self.position() + 1, token_type),
    {
        if self.current < self.tokens.len() && self.current + 1 < self.tokens.len() {
            let next = &self.tokens[self.current + 1];
            next.token_type != TokenType::Eof && next.token_type == token_type
        } else {
            false
        }
    }

    /// Consumes the next token if its category is among `token_types`, and says whether it
    /// did.
    fn match_tokens(&mut self, token_types: &[TokenType]) -> (matched: bool)
        requires
            old(self).well_formed(),
        ensures
            matched == exists|i: int|
                0 <= i < token_types@.len() && check(
                    old(self).tokens(),
                    old(self).position(),
                    #[trigger] token_types@[i],
                ),
            final(self).follows(old(self), if matched { 1 } else { 0 }),
    {
        let mut i: usize = 0;
        while i < token_types.len()
            invariant
                i <= token_types@.len(),
                self.follows(old(self), 0),
                forall|j: int|
                    0 <= j < i ==> !check(
                        self.tokens(),
                        self.position(),
                        #[trigger] token_types@[j],
                    ),
            decreases token_types.len() - i,
        {
            if self.check(token_types[i]) {
                self.advance();
                return true;
            }
            i += 1;
        }
        false
    }

    /// Consumes the next token if its category is `token_type`.
    fn skip_optional(&mut self, token_type: TokenType)
        requires
            old(self).well_formed(),
        ensures
            final(self).follows(
                old(self),
                optional(old(self).tokens(), old(self).position(), token_type),
            ),
    {
        if self.check(token_type) {
            self.advance();
        }
    }

    /// Consumes the next token and hands out its text.
    fn take_text(&mut self) -> (text: String)
        requires
            old(self).well_formed(),
            !at_end(old(self).tokens(), old(self).position()),
        ensures
            final(self).follows(old(self), 1),
            text@ == old(self).tokens()[old(self).position() as int].text,
    {
        self.advance();
        match self.previous() {
            Some(token) => token.value.clone(),
            None => String::new(),
        }
    }

    /// Reads an optional identifier.
    fn parse_name(&mut self) -> (name: String)
        requires
            old(self).well_formed(),
        ensures
            name@ == optional_name(old(self).tokens(), old(self).position()).0,
            final(self).follows(
                old(self),
                optional_name(old(self).tokens(), old(self).position()).1,
            ),
    {
        if self.check(TokenType::Identifier) {
            self.take_text()
        } else {
            String::new()
        }
    }

    /// Consumes one token and, if it is the keyword of a declaration, the declaration that it
    /// begins.
    fn parse_statement(&mut self) -> (node: Option<ASTNode>)
        requires
            old(self).well_formed(),
            !at_end(old(self).tokens(), old(self).position()),
        ensures
            (match node {
                Some(n) => Some(n@),
                None => None,
            }) == statement(old(self).tokens(), old(self).position()).0,
            final(self).follows(
                old(self),
                1 + statement(old(self).tokens(), old(self).position()).1,
            ),
        decreases remaining(old(self).tokens(), old(self).position()), 2nat,
    {
        let kind = self.tokens[self.current].token_type;
        self.advance();
        if kind == TokenType::Page {
            Some(self.parse_page())
        } else if kind == TokenType::Component {
            Some(self.parse_component())
        } else if kind == TokenType::Style {
            Some(self.parse_style())
        } else if kind == TokenType::Event {
            Some(self.parse_event())
        } else if kind == TokenType::State {
            Some(self.parse_state())
        } else if kind == TokenType::Api {
            Some(self.parse_api())
        } else if kind == TokenType::Router {
            Some(self.parse_router())
        } else if kind == TokenType::Layout {
            Some(self.parse_layout())
        } else if kind == TokenType::Animation {
            Some(self.parse_animation())
        } else if kind == TokenType::Type {
            Some(self.parse_type())
        } else if kind == TokenType::Hook {
            Some(self.parse_hook())
        } else if kind == TokenType::Plugin {
            Some(self.parse_plugin())
        } else if kind == TokenType::Config {
            Some(self.parse_config())
        } else if kind == TokenType::Import {
            Some(self.parse_import())
        } else if kind == TokenType::Export {
            Some(self.parse_export())
        } else {
            None
        }
    }

    /// Reads the attribute pairs of a page.
    fn parse_attributes(&mut self) -> (found: Attributes)
        requires
            old(self).well_formed(),
        ensures
            found@ == attributes(old(self).tokens(), old(self).position(), Pairs::empty()).0,
            final(self).follows(
                old(self),
                attributes(old(self).tokens(), old(self).position(), Pairs::empty()).1,
            ),
    {
        let ghost ts = self.tokens();
        let ghost start = self.position();
        let mut found = Attributes::new();
        while !self.check(TokenType::LeftBrace) && !self.is_at_end()
            invariant
                self.follows(old(self), (self.position() - start) as nat),
                self.tokens() == ts,
                start <= self.position(),
                attributes(ts, start, Pairs::empty()).0 == attributes(
                    ts,
                    self.position(),
                    found@,
                ).0,
                attributes(ts, start, Pairs::empty()).1 == (self.position() - start) + attributes(
                    ts,
                    self.position(),
                    found@,
                ).1,
            decreases remaining(ts, self.position()),
        {
            if self.check(TokenType::Identifier) {
                let key = self.take_text();
                if self.check(TokenType::Assign) {
                    self.advance();
                    if self.check(TokenType::String) {
                        let value = self.take_text();
                        found.insert(key, value);
                    }
                }
            } else {
                self.advance();
            }
        }
        found
    }

    /// Reads an optional block in braces.
    fn parse_braced(&mut self) -> (body: Vec<ASTNode>)
        requires
            old(self).well_formed(),
        ensures
            node_views(body@) == braced(old(self).tokens(), old(self).position()).0,
            final(self).follows(old(self), braced(old(self).tokens(), old(self).position()).1),
        decreases remaining(old(self).tokens(), old(self).position()), 0nat,
    {
        if self.check(TokenType::LeftBrace) {
            self.advance();
            let body = self.parse_block();
            self.skip_optional(TokenType::RightBrace);
            body
        } else {
            let body: Vec<ASTNode> = Vec::new();
            assert(node_views(body@) =~= Seq::empty());
            body
        }
    }

    /// Reads a page behind its keyword.
    fn parse_page(&mut self) -> (node: ASTNode)
        requires
            old(self).well_formed(),
        ensures
            node@ == page(old(self).tokens(), old(self).position()).0,
            final(self).follows(old(self), page(old(self).tokens(), old(self).position()).1),
        decreases remaining(old(self).tokens(), old(self).position()), 1nat,
    {
        let name = if self.check_next(TokenType::Assign) {
            String::new()
        } else {
            self.parse_name()
        };
        let attributes = self.parse_attributes();
        let body = self.parse_braced();
        ASTNode::Page { name, attributes, body }
    }

    /// Reads a component behind its keyword. The statements of its block are not kept.
    fn parse_component(&mut self) -> (node: ASTNode)
        requires
            old(self).well_formed(),
        ensures
            node@ == component(old(self).tokens(), old(self).position()).0,
            final(self).follows(old(self), component(old(self).tokens(), old(self).position()).1),
        decreases remaining(old(self).tokens(), old(self).position()), 1nat,
    {
        let name = self.parse_name();
        let type_params = self.parse_type_params();
        let _ = self.parse_braced();
        let node = ASTNode::Component {
            name,
            type_params,
            props: Vec::new(),
            events: Vec::new(),
            state: Vec::new(),
            methods: Vec::new(),
            render: None,
        };
        assert(node_views(Seq::<ASTNode>::empty()) =~= Seq::<Node>::empty());
        node
    }

    /// Reads an optional type-parameter list.
    fn parse_type_params(&mut self) -> (names: Vec<String>)
        requires
            old(self).well_formed(),
        ensures
            texts(names@) == type_params(old(self).tokens(), old(self).position()).0,
            final(self).follows(old(self), type_params(old(self).tokens(), old(self).position()).1),
    {
        if self.match_tokens(&[TokenType::Less, TokenType::OpeningTagStart]) {
            let names = self.parse_names(NameList::TypeParams);
            self.match_tokens(&[TokenType::Greater, TokenType::TagEnd]);
            names
        } else {
            let names: Vec<String> = Vec::new();
            assert(texts(names@) =~= Seq::empty());
            names
        }
    }

    /// Reads a comma-separated run of identifiers up to the token that closes `list`.
    fn parse_names(&mut self, list: NameList) -> (names: Vec<String>)
        requires
            old(self).well_formed(),
        ensures
            texts(names@) == name_list(old(self).tokens(), old(self).position(), list).0,
            final(self).follows(
                old(self),
                name_list(old(self).tokens(), old(self).position(), list).1,
            ),
    {
        let ghost ts = self.tokens();
        let ghost start = self.position();
        let mut names: Vec<String> = Vec::new();
        assert(texts(names@) =~= Seq::empty());
        while !self.is_at_end() && !ends_list(list, self.tokens[self.current].token_type)
            invariant
                self.follows(old(self), (self.position() - start) as nat),
                self.tokens() == ts,
                start <= self.position(),
                name_list(ts, start, list).0 == texts(names@) + name_list(
                    ts,
                    self.position(),
                    list,
                ).0,
                name_list(ts, start, list).1 == (self.position() - start) + name_list(
                    ts,
                    self.position(),
                    list,
                ).1,
            decreases remaining(ts, self.position()),
        {
            let ghost at = self.position();
            let ghost before = names@;
            let mut moved = false;
            if self.check(TokenType::Identifier) {
                let name = self.take_text();
                names.push(name);
                assert(texts(names@) =~= texts(before) + seq![ts[at as int].text]);
                moved = true;
            }
            if self.check(TokenType::Comma) {
                self.advance();
                moved = true;
            }
            if !moved {
                self.advance();
            }
            assert(name_list(ts, start, list).0 =~= texts(names@) + name_list(
                ts,
                self.position(),
                list,
            ).0);
        }
        assert(name_list(ts, start, list).0 =~= texts(names@));
        names
    }

    /// Reads a style behind its keyword.
    fn parse_style(&mut self) -> (node: ASTNode)
        requires
            old(self).well_formed(),
        ensures
            node@ == style(old(self).tokens(), old(self).position()).0,
            final(self).follows(old(self), style(old(self).tokens(), old(self).position()).1),
        decreases remaining(old(self).tokens(), old(self).position()), 1nat,
    {
        let selector = self.parse_name();
        let rules = self.parse_braced();
        ASTNode::Style { selector, rules }
    }

    /// Reads the optional `on` clause of an event.
    fn parse_event_target(&mut self) -> (target: String)
        requires
            old(self).well_formed(),
        ensures
            target@ == event_target(old(self).tokens(), old(self).position()).0,
            final(self).follows(
                old(self),
                event_target(old(self).tokens(), old(self).position()).1,
            ),
    {
        let marked = match self.peek() {
            Some(token) => token.token_type == TokenType::Identifier && same_text(
                token.value.as_str(),
                "on",
            ),
            None => false,
        };
        if marked {
            self.advance();
            self.parse_name()
        } else {
            String::new()
        }
    }

    /// Reads an event behind its keyword.
    fn parse_event(&mut self) -> (node: ASTNode)
        requires
            old(self).well_formed(),
        ensures
            node@ == event(old(self).tokens(), old(self).position()).0,
            final(self).follows(old(self), event(old(self).tokens(), old(self).position()).1),
        decreases remaining(old(self).tokens(), old(self).position()), 1nat,
    {
        let event_type = self.parse_name();
        let target = self.parse_event_target();
        let body = self.parse_braced();
        ASTNode::Event { event_type, target, body }
    }

    /// Reads a state behind its keyword.
    fn parse_state(&mut self) -> (node: ASTNode)
        requires
            old(self).well_formed(),
        ensures
            node@ == state(old(self).tokens(), old(self).position()).0,
            final(self).follows(old(self), state(old(self).tokens(), old(self).position()).1),
        decreases remaining(old(self).tokens(), old(self).position()), 1nat,
    {
        let name = self.parse_name();
        let properties = self.parse_braced();
        ASTNode::State { name, properties }
    }

    /// Reads an api behind its keyword.
    fn parse_api(&mut self) -> (node: ASTNode)
        requires
            old(self).well_formed(),
        ensures
            node@ == api(old(self).tokens(), old(self).position()).0,
            final(self).follows(old(self), api(old(self).tokens(), old(self).position()).1),
        decreases remaining(old(self).tokens(), old(self).position()), 1nat,
    {
        let name = self.parse_name();
        let methods = self.parse_braced();
        ASTNode::Api { name, properties: Attributes::new(), methods }
    }

    /// Reads a router behind its keyword.
    fn parse_router(&mut self) -> (node: ASTNode)
        requires
            old(self).well_formed(),
        ensures
            node@ == router(old(self).tokens(), old(self).position()).0,
            final(self).follows(old(self), router(old(self).tokens(), old(self).position()).1),
        decreases remaining(old(self).tokens(), old(self).position()), 1nat,
    {
        let routes = self.parse_braced();
        ASTNode::Router { routes }
    }

    /// Reads a layout behind its keyword. It renders the first statement of its block.
    fn parse_layout(&mut self) -> (node: ASTNode)
        requires
            old(self).well_formed(),
        ensures
            node@ == layout(old(self).tokens(), old(self).position()).0,
            final(self).follows(old(self), layout(old(self).tokens(), old(self).position()).1),
        decreases remaining(old(self).tokens(), old(self).position()), 1nat,
    {
        let name = self.parse_name();
        let mut body = self.parse_braced();
        proof {
            lemma_node_views_index(body@);
        }
        let render = if body.len() > 0 {
            Some(Box::new(body.remove(0)))
        } else {
            None
        };
        ASTNode::Layout { name, render }
    }

    /// Reads an animation behind its keyword.
    fn parse_animation(&mut self) -> (node: ASTNode)
        requires
            old(self).well_formed(),
        ensures
            node@ == animation(old(self).tokens(), old(self).position()).0,
            final(self).follows(old(self), animation(old(self).tokens(), old(self).position()).1),
        decreases remaining(old(self).tokens(), old(self).position()), 1nat,
    {
        let name = self.parse_name();
        let keyframes = self.parse_braced();
        ASTNode::Animation { name, keyframes }
    }

    /// Reads a type declaration behind its keyword.
    fn parse_type(&mut self) -> (node: ASTNode)
        requires
            old(self).well_formed(),
        ensures
            node@ == type_decl(old(self).tokens(), old(self).position()).0,
            final(self).follows(old(self), type_decl(old(self).tokens(), old(self).position()).1),
    {
        let name = self.parse_name();
        self.skip_optional(TokenType::Assign);
        self.skip_optional(TokenType::Semicolon);
        ASTNode::Type { name, definition: None }
    }

    /// Reads a hook behind its keyword. Its parameters are not kept.
    fn parse_hook(&mut self) -> (node: ASTNode)
        requires
            old(self).well_formed(),
        ensures
            node@ == hook(old(self).tokens(), old(self).position()).0,
            final(self).follows(old(self), hook(old(self).tokens(), old(self).position()).1),
        decreases remaining(old(self).tokens(), old(self).position()), 1nat,
    {
        let name = self.parse_name();
        let parameters = self.parse_parameters();
        let body = self.parse_braced();
        ASTNode::Hook { name, parameters, body }
    }

    /// Reads a plugin behind its keyword. The statements of its block are not kept.
    fn parse_plugin(&mut self) -> (node: ASTNode)
        requires
            old(self).well_formed(),
        ensures
            node@ == plugin(old(self).tokens(), old(self).position()).0,
            final(self).follows(old(self), plugin(old(self).tokens(), old(self).position()).1),
        decreases remaining(old(self).tokens(), old(self).position()), 1nat,
    {
        let name = self.parse_name();
        let _ = self.parse_braced();
        ASTNode::Plugin { name, properties: Attributes::new() }
    }

    /// Reads a config behind its keyword. The statements of its block are not kept.
    fn parse_config(&mut self) -> (node: ASTNode)
        requires
            old(self).well_formed(),
        ensures
            node@ == config(old(self).tokens(), old(self).position()).0,
            final(self).follows(old(self), config(old(self).tokens(), old(self).position()).1),
        decreases remaining(old(self).tokens(), old(self).position()), 1nat,
    {
        let _ = self.parse_braced();
        ASTNode::Config { properties: Attributes::new() }
    }

    /// Reads an optional source clause.
    fn parse_source(&mut self) -> (source: String)
        requires
            old(self).well_formed(),
        ensures
            source@ == source_clause(old(self).tokens(), old(self).position()).0,
            final(self).follows(
                old(self),
                source_clause(old(self).tokens(), old(self).position()).1,
            ),
    {
        if self.check(TokenType::From) {
            self.advance();
            if self.check(TokenType::String) {
                self.take_text()
            } else {
                String::new()
            }
        } else {
            String::new()
        }
    }

    /// Reads an import behind its keyword.
    fn parse_import(&mut self) -> (node: ASTNode)
        requires
            old(self).well_formed(),
        ensures
            node@ == import(old(self).tokens(), old(self).position()).0,
            final(self).follows(old(self), import(old(self).tokens(), old(self).position()).1),
    {
        let specifiers = self.parse_names(NameList::Specifiers);
        let source = self.parse_source();
        ASTNode::Import { specifiers, source }
    }

    /// Reads an export behind its keyword.
    fn parse_export(&mut self) -> (node: ASTNode)
        requires
            old(self).well_formed(),
        ensures
            node@ == export(old(self).tokens(), old(self).position()).0,
            final(self).follows(old(self), export(old(self).tokens(), old(self).position()).1),
    {
        let is_default = match self.peek() {
            Some(token) => token.token_type == TokenType::Identifier && same_text(
                token.value.as_str(),
                "default",
            ),
            None => false,
        };
        if is_default {
            self.advance();
        }
        let specifiers = self.parse_names(NameList::Specifiers);
        let source = self.parse_source();
        ASTNode::Export { specifiers, source, is_default }
    }

    /// Reads statements up to the closing brace or the end of input.
    fn parse_block(&mut self) -> (statements: Vec<ASTNode>)
        requires
            old(self).well_formed(),
        ensures
            node_views(statements@) == block(old(self).tokens(), old(self).position()).0,
            final(self).follows(old(self), block(old(self).tokens(), old(self).position()).1),
        decreases remaining(old(self).tokens(), old(self).position()), 3nat,
    {
        let ghost ts = self.tokens();
        let ghost start = self.position();
        let mut statements: Vec<ASTNode> = Vec::new();
        assert(node_views(statements@) =~= Seq::empty());
        while !self.check(TokenType::RightBrace) && !self.is_at_end()
            invariant
                self.follows(old(self), (self.position() - start) as nat),
                self.tokens() == ts,
                ts == old(self).tokens(),
                start == old(self).position(),
                start <= self.position(),
                block(ts, start).0 == node_views(statements@) + block(ts, self.position()).0,
                block(ts, start).1 == (self.position() - start) + block(ts, self.position()).1,
            decreases remaining(ts, self.position()),
        {
            let ghost before = statements@;
            match self.parse_statement() {
                Some(statement) => {
                    statements.push(statement);
                    proof {
                        lemma_node_views_push(before, statement);
                    }
                    assert(block(ts, start).0 =~= node_views(statements@) + block(
                        ts,
                        self.position(),
                    ).0);
                },
                None => {},
            }
        }
        assert(block(ts, start).0 =~= node_views(statements@));
        statements
    }

    /// Reads an optional parameter list. The parameters are not kept.
    fn parse_parameters(&mut self) -> (found: Vec<ASTNode>)
        requires
            old(self).well_formed(),
        ensures
            found@.len() == 0,
            final(self).follows(old(self), parameters(old(self).tokens(), old(self).position())),
    {
        if self.check(TokenType::LeftParen) {
            self.advance();
            let _ = self.parse_names(NameList::Parameters);
            self.skip_optional(TokenType::RightParen);
        }
        Vec::new()
    }
}

} // verus!
