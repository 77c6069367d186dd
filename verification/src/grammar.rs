//! What the parser computes: the syntax tree of a token sequence, defined by one function
//! per construct of the language.

use vstd::prelude::*;
use crate::ast::{distinct_keys, lemma_put, put, Node, Pairs};
use crate::token::{TokenType, TokenView};

verus! {

/// A token sequence as a mathematical value.
pub type Tokens = Seq<TokenView>;

/// Whitespace, line feeds and comments carry no meaning for the grammar.
pub open spec fn is_trivia(kind: TokenType) -> bool {
    kind == TokenType::Whitespace || kind == TokenType::Newline || kind == TokenType::Comment
}

/// The tokens that the grammar reads: all but the trivia, in order.
pub open spec fn significant(tokens: Tokens) -> Tokens {
    tokens.filter(|t: TokenView| !is_trivia(t.kind))
}

/// No token is left at `pos`: the sequence is exhausted or the end-of-input marker stands
/// there.
pub open spec fn at_end(ts: Tokens, pos: nat) -> bool {
    pos >= ts.len() || ts[pos as int].kind == TokenType::Eof
}

/// A token of category `kind` stands at `pos`.
pub open spec fn check(ts: Tokens, pos: nat, kind: TokenType) -> bool {
    !at_end(ts, pos) && ts[pos as int].kind == kind
}

/// The number of tokens from `pos` to the end of the sequence.
pub open spec fn remaining(ts: Tokens, pos: nat) -> nat {
    if pos < ts.len() {
        (ts.len() - pos) as nat
    } else {
        0
    }
}

/// One if a token of category `kind` stands at `pos`, else zero: the number of tokens that
/// an optional `kind` takes.
pub open spec fn optional(ts: Tokens, pos: nat, kind: TokenType) -> nat {
    if check(ts, pos, kind) {
        1
    } else {
        0
    }
}

/// An optional identifier at `pos`: its text and one token consumed, or the empty text and
/// none.
pub open spec fn optional_name(ts: Tokens, pos: nat) -> (Seq<char>, nat) {
    if check(ts, pos, TokenType::Identifier) {
        (ts[pos as int].text, 1)
    } else {
        (Seq::empty(), 0)
    }
}

/// The lists of names that the grammar knows; they differ in what ends them.
#[derive(Clone, Copy)]
pub enum NameList {
    /// The specifiers of an import or export, up to `from`.
    Specifiers,
    /// The type parameters of a component, up to the closing angle bracket.
    TypeParams,
    /// The parameters of a hook, up to the closing parenthesis.
    Parameters,
}

/// Whether a token of category `kind` ends a list of sort `list`.
pub open spec fn closes(list: NameList, kind: TokenType) -> bool {
    match list {
        NameList::Specifiers => kind == TokenType::From,
        NameList::TypeParams => kind == TokenType::Greater || kind == TokenType::TagEnd,
        NameList::Parameters => kind == TokenType::RightParen,
    }
}

/// A comma-separated run of identifiers from `pos` up to the token that closes the list or
/// the end of input: the identifiers in order, and the tokens consumed. A token that is
/// neither an identifier nor a comma is passed over.
pub open spec fn name_list(ts: Tokens, pos: nat, list: NameList) -> (Seq<Seq<char>>, nat)
    decreases remaining(ts, pos),
{
    if at_end(ts, pos) || closes(list, ts[pos as int].kind) {
        (Seq::empty(), 0)
    } else {
        let name = optional(ts, pos, TokenType::Identifier);
        let comma = optional(ts, pos + name, TokenType::Comma);
        let step = if name + comma == 0 { 1 } else { name + comma };
        let (rest, used) = name_list(ts, pos + step, list);
        (
            if name == 1 {
                seq![ts[pos as int].text] + rest
            } else {
                rest
            },
            step + used,
        )
    }
}

/// The attribute pairs of a page from `pos` up to the opening brace or the end of input,
/// stored in order on top of `found`, and the tokens consumed. An identifier followed by
/// `=` and a string literal is a pair; an identifier alone, or with `=` alone, is passed
/// over, as is any other token.
pub open spec fn attributes(ts: Tokens, pos: nat, found: Pairs) -> (Pairs, nat)
    decreases remaining(ts, pos),
{
    if at_end(ts, pos) || ts[pos as int].kind == TokenType::LeftBrace {
        (found, 0)
    } else if ts[pos as int].kind == TokenType::Identifier && check(
        ts,
        pos + 1,
        TokenType::Assign,
    ) {
        if check(ts, pos + 2, TokenType::String) {
            let (all, used) = attributes(
                ts,
                pos + 3,
                put(found, ts[pos as int].text, ts[(pos + 2) as int].text),
            );
            (all, 3 + used)
        } else {
            let (all, used) = attributes(ts, pos + 2, found);
            (all, 2 + used)
        }
    } else {
        let (all, used) = attributes(ts, pos + 1, found);
        (all, 1 + used)
    }
}

/// An optional source clause at `pos`: `from` and, if one follows, a string literal that
/// names the source.
pub open spec fn source_clause(ts: Tokens, pos: nat) -> (Seq<char>, nat) {
    if check(ts, pos, TokenType::From) {
        if check(ts, pos + 1, TokenType::String) {
            (ts[(pos + 1) as int].text, 2)
        } else {
            (Seq::empty(), 1)
        }
    } else {
        (Seq::empty(), 0)
    }
}

/// Whether an opening angle bracket stands at `pos`.
pub open spec fn opens_type_params(ts: Tokens, pos: nat) -> bool {
    check(ts, pos, TokenType::Less) || check(ts, pos, TokenType::OpeningTagStart)
}

/// Whether a closing angle bracket stands at `pos`.
pub open spec fn closes_type_params(ts: Tokens, pos: nat) -> bool {
    check(ts, pos, TokenType::Greater) || check(ts, pos, TokenType::TagEnd)
}

/// An optional type-parameter list at `pos`: `<`, names, and `>` if it is there.
pub open spec fn type_params(ts: Tokens, pos: nat) -> (Seq<Seq<char>>, nat) {
    if opens_type_params(ts, pos) {
        let (names, used) = name_list(ts, pos + 1, NameList::TypeParams);
        let close: nat = if closes_type_params(ts, pos + 1 + used) { 1 } else { 0 };
        (names, 1 + used + close)
    } else {
        (Seq::empty(), 0)
    }
}

/// The tokens of an optional parameter list at `pos`: `(`, names, and `)` if it is there.
/// The names are not kept.
pub open spec fn parameters(ts: Tokens, pos: nat) -> nat {
    if check(ts, pos, TokenType::LeftParen) {
        let used = name_list(ts, pos + 1, NameList::Parameters).1;
        1 + used + optional(ts, pos + 1 + used, TokenType::RightParen)
    } else {
        0
    }
}

/// A type declaration behind its keyword: a name, an optional `=` whose right-hand side is
/// not read, and an optional `;`.
pub open spec fn type_decl(ts: Tokens, pos: nat) -> (Node, nat) {
    let (name, a) = optional_name(ts, pos);
    let b = optional(ts, pos + a, TokenType::Assign);
    let c = optional(ts, pos + a + b, TokenType::Semicolon);
    (Node::Type { name, definition: None }, a + b + c)
}

/// An import behind its keyword: specifiers, then a source clause.
pub open spec fn import(ts: Tokens, pos: nat) -> (Node, nat) {
    let (specifiers, a) = name_list(ts, pos, NameList::Specifiers);
    let (source, b) = source_clause(ts, pos + a);
    (Node::Import { specifiers, source }, a + b)
}

/// Whether the identifier `default` stands at `pos`.
pub open spec fn default_marker(ts: Tokens, pos: nat) -> bool {
    check(ts, pos, TokenType::Identifier) && ts[pos as int].text == "default"@
}

/// An export behind its keyword: an optional `default`, specifiers, then a source clause.
pub open spec fn export(ts: Tokens, pos: nat) -> (Node, nat) {
    let d: nat = if default_marker(ts, pos) { 1 } else { 0 };
    let (specifiers, a) = name_list(ts, pos + d, NameList::Specifiers);
    let (source, b) = source_clause(ts, pos + d + a);
    (Node::Export { specifiers, source, is_default: d == 1 }, d + a + b)
}

/// An optional block at `pos`: `{`, statements, and `}` if it is there.
pub open spec fn braced(ts: Tokens, pos: nat) -> (Seq<Node>, nat)
    decreases remaining(ts, pos), 0nat,
{
    if check(ts, pos, TokenType::LeftBrace) {
        let (body, used) = block(ts, pos + 1);
        (body, 1 + used + optional(ts, pos + 1 + used, TokenType::RightBrace))
    } else {
        (Seq::empty(), 0)
    }
}

/// The optional name of a page at `pos`: an identifier, unless `=` follows it, which makes
/// it the key of the page's first attribute.
pub open spec fn page_name(ts: Tokens, pos: nat) -> (Seq<char>, nat) {
    if check(ts, pos + 1, TokenType::Assign) {
        (Seq::empty(), 0)
    } else {
        optional_name(ts, pos)
    }
}

/// A page behind its keyword: an optional name, attribute pairs, a block.
pub open spec fn page(ts: Tokens, pos: nat) -> (Node, nat)
    decreases remaining(ts, pos), 1nat,
{
    let (name, a) = page_name(ts, pos);
    let (attributes, b) = attributes(ts, pos + a, Pairs::empty());
    let (body, c) = braced(ts, pos + a + b);
    (Node::Page { name, attributes, body }, a + b + c)
}

/// A component behind its keyword: an optional name, optional type parameters, a block
/// whose statements are not kept.
pub open spec fn component(ts: Tokens, pos: nat) -> (Node, nat)
    decreases remaining(ts, pos), 1nat,
{
    let (name, a) = optional_name(ts, pos);
    let (type_params, b) = type_params(ts, pos + a);
    let c = braced(ts, pos + a + b).1;
    (
        Node::Component {
            name,
            type_params,
            props: Seq::empty(),
            events: Seq::empty(),
            state: Seq::empty(),
            methods: Seq::empty(),
            render: None,
        },
        a + b + c,
    )
}

/// A style behind its keyword: a selector, a block.
pub open spec fn style(ts: Tokens, pos: nat) -> (Node, nat)
    decreases remaining(ts, pos), 1nat,
{
    let (selector, a) = optional_name(ts, pos);
    let (rules, b) = braced(ts, pos + a);
    (Node::Style { selector, rules }, a + b)
}

/// The target of an event at `pos`: the identifier `on` and, if one follows, the
/// identifier it names.
pub open spec fn event_target(ts: Tokens, pos: nat) -> (Seq<char>, nat) {
    if check(ts, pos, TokenType::Identifier) && ts[pos as int].text == "on"@ {
        let (target, used) = optional_name(ts, pos + 1);
        (target, 1 + used)
    } else {
        (Seq::empty(), 0)
    }
}

/// An event behind its keyword: an event type, an optional target, a block.
pub open spec fn event(ts: Tokens, pos: nat) -> (Node, nat)
    decreases remaining(ts, pos), 1nat,
{
    let (event_type, a) = optional_name(ts, pos);
    let (target, b) = event_target(ts, pos + a);
    let (body, c) = braced(ts, pos + a + b);
    (Node::Event { event_type, target, body }, a + b + c)
}

/// A state behind its keyword: a name, a block.
pub open spec fn state(ts: Tokens, pos: nat) -> (Node, nat)
    decreases remaining(ts, pos), 1nat,
{
    let (name, a) = optional_name(ts, pos);
    let (properties, b) = braced(ts, pos + a);
    (Node::State { name, properties }, a + b)
}

/// An api behind its keyword: a name, a block.
pub open spec fn api(ts: Tokens, pos: nat) -> (Node, nat)
    decreases remaining(ts, pos), 1nat,
{
    let (name, a) = optional_name(ts, pos);
    let (methods, b) = braced(ts, pos + a);
    (Node::Api { name, properties: Pairs::empty(), methods }, a + b)
}

/// A router behind its keyword: a block.
pub open spec fn router(ts: Tokens, pos: nat) -> (Node, nat)
    decreases remaining(ts, pos), 1nat,
{
    let (routes, a) = braced(ts, pos);
    (Node::Router { routes }, a)
}

/// A layout behind its keyword: a name, a block. The first statement of the block, if
/// there is one, is what the layout renders.
pub open spec fn layout(ts: Tokens, pos: nat) -> (Node, nat)
    decreases remaining(ts, pos), 1nat,
{
    let (name, a) = optional_name(ts, pos);
    let (body, b) = braced(ts, pos + a);
    (
        Node::Layout {
            name,
            render: if body.len() > 0 {
                Some(Box::new(body[0]))
            } else {
                None
            },
        },
        a + b,
    )
}

/// An animation behind its keyword: a name, a block.
pub open spec fn animation(ts: Tokens, pos: nat) -> (Node, nat)
    decreases remaining(ts, pos), 1nat,
{
    let (name, a) = optional_name(ts, pos);
    let (keyframes, b) = braced(ts, pos + a);
    (Node::Animation { name, keyframes }, a + b)
}

/// A hook behind its keyword: a name, a parameter list, a block.
pub open spec fn hook(ts: Tokens, pos: nat) -> (Node, nat)
    decreases remaining(ts, pos), 1nat,
{
    let (name, a) = optional_name(ts, pos);
    let b = parameters(ts, pos + a);
    let (body, c) = braced(ts, pos + a + b);
    (Node::Hook { name, parameters: Seq::empty(), body }, a + b + c)
}

/// A plugin behind its keyword: a name, a block whose statements are not kept.
pub open spec fn plugin(ts: Tokens, pos: nat) -> (Node, nat)
    decreases remaining(ts, pos), 1nat,
{
    let (name, a) = optional_name(ts, pos);
    let b = braced(ts, pos + a).1;
    (Node::Plugin { name, properties: Pairs::empty() }, a + b)
}

/// A config behind its keyword: a block whose statements are not kept.
pub open spec fn config(ts: Tokens, pos: nat) -> (Node, nat)
    decreases remaining(ts, pos), 1nat,
{
    (Node::Config { properties: Pairs::empty() }, braced(ts, pos).1)
}

/// The statement at `pos`, where a token must stand: the declaration that the keyword
/// there begins, or nothing for any other token, and the number of tokens consumed after
/// that first one.
pub open spec fn statement(ts: Tokens, pos: nat) -> (Option<Node>, nat)
    decreases remaining(ts, pos), 2nat,
{
    if at_end(ts, pos) {
        (None, 0)
    } else {
        let kind = ts[pos as int].kind;
        let declaration = if kind == TokenType::Page {
            Some(page(ts, pos + 1))
        } else if kind == TokenType::Component {
            Some(component(ts, pos + 1))
        } else if kind == TokenType::Style {
            Some(style(ts, pos + 1))
        } else if kind == TokenType::Event {
            Some(event(ts, pos + 1))
        } else if kind == TokenType::State {
            Some(state(ts, pos + 1))
        } else if kind == TokenType::Api {
            Some(api(ts, pos + 1))
        } else if kind == TokenType::Router {
            Some(router(ts, pos + 1))
        } else if kind == TokenType::Layout {
            Some(layout(ts, pos + 1))
        } else if kind == TokenType::Animation {
            Some(animation(ts, pos + 1))
        } else if kind == TokenType::Type {
            Some(type_decl(ts, pos + 1))
        } else if kind == TokenType::Hook {
            Some(hook(ts, pos + 1))
        } else if kind == TokenType::Plugin {
            Some(plugin(ts, pos + 1))
        } else if kind == TokenType::Config {
            Some(config(ts, pos + 1))
        } else if kind == TokenType::Import {
            Some(import(ts, pos + 1))
        } else if kind == TokenType::Export {
            Some(export(ts, pos + 1))
        } else {
            None
        };
        match declaration {
            Some((node, used)) => (Some(node), used),
            None => (None, 0),
        }
    }
}

/// The statements of a block from `pos` up to the closing brace or the end of input: the
/// declarations among them, in order, and the tokens consumed.
pub open spec fn block(ts: Tokens, pos: nat) -> (Seq<Node>, nat)
    decreases remaining(ts, pos), 3nat,
{
    if at_end(ts, pos) || ts[pos as int].kind == TokenType::RightBrace {
        (Seq::empty(), 0)
    } else {
        let (node, used) = statement(ts, pos);
        let (rest, more) = block(ts, pos + 1 + used);
        (
            match node {
                Some(n) => seq![n] + rest,
                None => rest,
            },
            1 + used + more,
        )
    }
}

/// The top-level declarations from `pos` to the end of input, in order.
pub open spec fn declarations(ts: Tokens, pos: nat) -> Seq<Node>
    decreases remaining(ts, pos),
{
    if at_end(ts, pos) {
        Seq::empty()
    } else {
        let (node, used) = statement(ts, pos);
        let rest = declarations(ts, pos + 1 + used);
        match node {
            Some(n) => seq![n] + rest,
            None => rest,
        }
    }
}

/// The syntax tree of a token sequence read from `pos`.
pub open spec fn program(ts: Tokens, pos: nat) -> Node {
    Node::Program(declarations(ts, pos))
}

/// No trivia is left among the significant tokens.
pub proof fn lemma_significant_has_no_trivia(tokens: Tokens)
    ensures
        forall|i: int|
            0 <= i < significant(tokens).len() ==> !is_trivia(
                (#[trigger] significant(tokens)[i]).kind,
            ),
{
    let keep = |t: TokenView| !is_trivia(t.kind);
    assert forall|i: int| 0 <= i < significant(tokens).len() implies !is_trivia(
        (#[trigger] significant(tokens)[i]).kind,
    ) by {
        tokens.lemma_filter_pred(keep, i);
    }
}

/// The attribute pairs of a page have distinct keys, if those found before had.
pub proof fn lemma_attributes_have_distinct_keys(ts: Tokens, pos: nat, found: Pairs)
    requires
        distinct_keys(found),
    ensures
        distinct_keys(attributes(ts, pos, found).0),
    decreases remaining(ts, pos),
{
    if at_end(ts, pos) || ts[pos as int].kind == TokenType::LeftBrace {
    } else if ts[pos as int].kind == TokenType::Identifier && check(
        ts,
        pos + 1,
        TokenType::Assign,
    ) {
        if check(ts, pos + 2, TokenType::String) {
            let key = ts[pos as int].text;
            let value = ts[(pos + 2) as int].text;
            lemma_put(found, key, value, key);
            lemma_attributes_have_distinct_keys(ts, pos + 3, put(found, key, value));
        } else {
            lemma_attributes_have_distinct_keys(ts, pos + 2, found);
        }
    } else {
        lemma_attributes_have_distinct_keys(ts, pos + 1, found);
    }
}

/// A name list ends within the tokens.
pub proof fn lemma_name_list_within(ts: Tokens, pos: nat, list: NameList)
    requires
        pos <= ts.len(),
    ensures
        pos + name_list(ts, pos, list).1 <= ts.len(),
    decreases remaining(ts, pos),
{
    if at_end(ts, pos) || closes(list, ts[pos as int].kind) {
    } else {
        let name = optional(ts, pos, TokenType::Identifier);
        let comma = optional(ts, pos + name, TokenType::Comma);
        let step = if name + comma == 0 { 1 } else { name + comma };
        lemma_name_list_within(ts, pos + step, list);
    }
}

/// The attribute pairs of a page end within the tokens.
pub proof fn lemma_attributes_within(ts: Tokens, pos: nat, found: Pairs)
    requires
        pos <= ts.len(),
    ensures
        pos + attributes(ts, pos, found).1 <= ts.len(),
    decreases remaining(ts, pos),
{
    if at_end(ts, pos) || ts[pos as int].kind == TokenType::LeftBrace {
    } else if ts[pos as int].kind == TokenType::Identifier && check(
        ts,
        pos + 1,
        TokenType::Assign,
    ) {
        if check(ts, pos + 2, TokenType::String) {
            lemma_attributes_within(
                ts,
                pos + 3,
                put(found, ts[pos as int].text, ts[(pos + 2) as int].text),
            );
        } else {
            lemma_attributes_within(ts, pos + 2, found);
        }
    } else {
        lemma_attributes_within(ts, pos + 1, found);
    }
}

/// An optional block ends within the tokens.
pub proof fn lemma_braced_within(ts: Tokens, pos: nat)
    requires
        pos <= ts.len(),
    ensures
        pos + braced(ts, pos).1 <= ts.len(),
    decreases remaining(ts, pos), 0nat,
{
    if check(ts, pos, TokenType::LeftBrace) {
        lemma_block_within(ts, pos + 1);
    }
}

/// Every statement consumes its first token and ends within the tokens: the parser moves
/// forward with each statement and never reads past the last token.
pub proof fn lemma_statement_within(ts: Tokens, pos: nat)
    requires
        !at_end(ts, pos),
    ensures
        pos + 1 + statement(ts, pos).1 <= ts.len(),
    decreases remaining(ts, pos), 2nat,
{
    let kind = ts[pos as int].kind;
    let p = pos + 1;
    let a = optional_name(ts, p).1;
    if kind == TokenType::Page {
        let a = page_name(ts, p).1;
        lemma_attributes_within(ts, p + a, Pairs::empty());
        lemma_braced_within(ts, p + a + attributes(ts, p + a, Pairs::empty()).1);
    } else if kind == TokenType::Component {
        if opens_type_params(ts, p + a) {
            lemma_name_list_within(ts, p + a + 1, NameList::TypeParams);
        }
        lemma_braced_within(ts, p + a + type_params(ts, p + a).1);
    } else if kind == TokenType::Event {
        lemma_braced_within(ts, p + a + event_target(ts, p + a).1);
    } else if kind == TokenType::Hook {
        if check(ts, p + a, TokenType::LeftParen) {
            lemma_name_list_within(ts, p + a + 1, NameList::Parameters);
        }
        lemma_braced_within(ts, p + a + parameters(ts, p + a));
    } else if kind == TokenType::Router || kind == TokenType::Config {
        lemma_braced_within(ts, p);
    } else if kind == TokenType::Import {
        lemma_name_list_within(ts, p, NameList::Specifiers);
    } else if kind == TokenType::Export {
        let d: nat = if default_marker(ts, p) { 1 } else { 0 };
        lemma_name_list_within(ts, p + d, NameList::Specifiers);
    } else if kind == TokenType::Style || kind == TokenType::State || kind == TokenType::Api
        || kind == TokenType::Layout || kind == TokenType::Animation || kind
        == TokenType::Plugin {
        lemma_braced_within(ts, p + a);
    }
}

/// The statements of a block end within the tokens.
pub proof fn lemma_block_within(ts: Tokens, pos: nat)
    requires
        pos <= ts.len(),
    ensures
        pos + block(ts, pos).1 <= ts.len(),
    decreases remaining(ts, pos), 3nat,
{
    if at_end(ts, pos) || ts[pos as int].kind == TokenType::RightBrace {
    } else {
        lemma_statement_within(ts, pos);
        lemma_block_within(ts, pos + 1 + statement(ts, pos).1);
    }
}

} // verus!
