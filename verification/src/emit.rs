//! What the emitter computes: the markup, style sheet and script that a syntax tree stands
//! for, defined by one template per construct.

use vstd::prelude::*;
use crate::ast::{lookup, Node, Pairs};
use crate::text::{lowercase_of, uppercase_of};

verus! {

/// The three generated texts.
pub struct Output {
    pub markup: Seq<char>,
    pub style: Seq<char>,
    pub script: Seq<char>,
}

/// Three empty texts.
pub open spec fn nothing() -> Output {
    Output { markup: Seq::empty(), style: Seq::empty(), script: Seq::empty() }
}

/// Markup alone.
pub open spec fn markup_only(text: Seq<char>) -> Output {
    Output { markup: text, style: Seq::empty(), script: Seq::empty() }
}

/// Style alone.
pub open spec fn style_only(text: Seq<char>) -> Output {
    Output { markup: Seq::empty(), style: text, script: Seq::empty() }
}

/// Script alone.
pub open spec fn script_only(text: Seq<char>) -> Output {
    Output { markup: Seq::empty(), style: Seq::empty(), script: text }
}

/// The texts of `base`, each followed by the text of `more` of the same kind.
pub open spec fn appended(base: Output, more: Output) -> Output {
    Output {
        markup: base.markup + more.markup,
        style: base.style + more.style,
        script: base.script + more.script,
    }
}

/// A word with its first character in uppercase; the empty word stays empty.
pub open spec fn capitalized(word: Seq<char>) -> Seq<char> {
    if word.len() == 0 {
        Seq::empty()
    } else {
        uppercase_of(word[0]) + word.subrange(1, word.len() as int)
    }
}

/// The items with `separator` between each two neighbours.
pub open spec fn joined(items: Seq<Seq<char>>, separator: Seq<char>) -> Seq<char>
    decreases items.len(),
{
    if items.len() == 0 {
        Seq::empty()
    } else if items.len() == 1 {
        items[0]
    } else {
        joined(items.drop_last(), separator) + separator + items.last()
    }
}

/// A specifier list as a statement shows it: a single specifier bare, any other number of
/// them in braces, separated by commas.
pub open spec fn specifier_list(specifiers: Seq<Seq<char>>) -> Seq<char> {
    if specifiers.len() == 1 {
        specifiers[0]
    } else {
        "{ "@ + joined(specifiers, ", "@) + " }"@
    }
}

/// A source clause as a statement shows it; an empty source has none.
pub open spec fn from_clause(source: Seq<char>) -> Seq<char> {
    if source.len() == 0 {
        Seq::empty()
    } else {
        " from '"@ + source + "'"@
    }
}

/// An import statement.
pub open spec fn import_statement(specifiers: Seq<Seq<char>>, source: Seq<char>) -> Seq<char> {
    "import "@ + specifier_list(specifiers) + from_clause(source) + ";\n"@
}

/// The marker of a default export.
pub open spec fn default_clause(is_default: bool) -> Seq<char> {
    if is_default {
        "default "@
    } else {
        Seq::empty()
    }
}

/// An export statement.
pub open spec fn export_statement(
    specifiers: Seq<Seq<char>>,
    source: Seq<char>,
    is_default: bool,
) -> Seq<char> {
    "export "@ + default_clause(is_default) + specifier_list(specifiers) + from_clause(source)
        + ";\n"@
}

/// The title element of a page, if its attributes give a `title`.
pub open spec fn title_element(attributes: Pairs) -> Seq<char> {
    match lookup(attributes, "title"@) {
        Some(title) => "  <title>"@ + title + "</title>\n"@,
        None => Seq::empty(),
    }
}

/// The document head of a page and the opening of its body.
pub open spec fn page_head(attributes: Pairs) -> Seq<char> {
    "<!DOCTYPE html>\n<html lang=\"en\">\n<head>\n"@
        + "  <meta charset=\"UTF-8\">\n"@
        + "  <meta name=\"viewport\" content=\"width=device-width, initial-scale=1.0\">\n"@
        + title_element(attributes)
        + "  <link rel=\"stylesheet\" href=\"css/theme.css\">\n"@
        + "  <link rel=\"stylesheet\" href=\"css/emadocs.css\">\n"@
        + "  <link rel=\"stylesheet\" href=\"styles.css\">\n"@
        + "</head>\n<body>\n"@
}

/// The fixed script links and closing tags that end the document of a page.
pub open spec fn page_foot() -> Seq<char> {
    "  <script src=\"js/emadocs.js\"></script>\n"@
        + "  <script src=\"script.js\"></script>\n"@
        + "</body>\n</html>"@
}

/// The style rule of a component named `name`: a rule for the class `ema-` followed by the
/// lowercase name `lower`.
pub open spec fn component_style(name: Seq<char>, lower: Seq<char>) -> Seq<char> {
    "/* "@
        + name
        + " Component */\n"@
        + ".ema-"@
        + lower
        + " {\n"@
        + "  display: block;\n"@
        + "  position: relative;\n"@
        + "  box-sizing: border-box;\n"@
        + "}\n\n"@
}

/// The custom element of a component: a class named `Ema` followed by the capitalized name
/// `capitalized`, with a constructor, a mount callback, a render method, a template method and
/// a listener setup, and its registration under `ema-` followed by the lowercase name `lower`.
pub open spec fn component_script(lower: Seq<char>, capitalized: Seq<char>) -> Seq<char> {
    "class Ema"@
        + capitalized
        + " extends HTMLElement {\n"@
        + "  constructor() {\n"@
        + "    super();\n"@
        + "    this.attachShadow({ mode: 'open' });\n"@
        + "  }\n\n"@
        + "  connectedCallback() {\n"@
        + "    this.render();\n"@
        + "    this.setupEventListeners();\n"@
        + "  }\n\n"@
        + "  render() {\n"@
        + "    this.shadowRoot.innerHTML = this.getTemplate();\n"@
        + "  }\n\n"@
        + "  getTemplate() {\n"@
        + "    return `\n"@
        + "      <div class=\"ema-"@
        + lower
        + "\">\n"@
        + "        <slot></slot>\n"@
        + "      </div>\n"@
        + "    `;\n"@
        + "  }\n\n"@
        + "  setupEventListeners() {\n"@
        + "    // Event listeners will be added here\n"@
        + "  }\n"@
        + "}\n\n"@
        + "customElements.define('ema-"@
        + lower
        + "', Ema"@
        + capitalized
        + ");\n"@
}

/// The placeholder rule of a style declaration.
pub open spec fn style_rule(selector: Seq<char>) -> Seq<char> {
    "/* "@
        + selector
        + " Styles */\n"@
        + "."@
        + selector
        + " {\n"@
        + "  /* Styles will be generated here */\n"@
        + "}\n\n"@
}

/// The listener registration of an event declaration.
pub open spec fn event_listener(event_type: Seq<char>, target: Seq<char>) -> Seq<char> {
    "// Event: "@
        + event_type
        + " on "@
        + target
        + "\n"@
        + "document.addEventListener('"@
        + event_type
        + "', (event) => {\n"@
        + "  // Event handler code\n"@
        + "});\n"@
}

/// The placeholder object of a state declaration.
pub open spec fn state_object(name: Seq<char>) -> Seq<char> {
    "// State: "@
        + name
        + "\n"@
        + "const "@
        + name
        + " = {\n"@
        + "  // State properties will be generated here\n"@
        + "};\n"@
}

/// The placeholder class of an api declaration.
pub open spec fn api_class(name: Seq<char>) -> Seq<char> {
    "// API: "@
        + name
        + "\n"@
        + "class "@
        + name
        + " {\n"@
        + "  constructor() {\n"@
        + "    this.baseUrl = '';\n"@
        + "  }\n\n"@
        + "  // API methods will be generated here\n"@
        + "}\n"@
}

/// The fixed client-side router of a router declaration.
pub open spec fn router_class() -> Seq<char> {
    "// Router\n"@
        + "class EmadocsRouter {\n"@
        + "  constructor() {\n"@
        + "    this.routes = new Map();\n"@
        + "    this.init();\n"@
        + "  }\n\n"@
        + "  init() {\n"@
        + "    window.addEventListener('popstate', () => this.handleRoute());\n"@
        + "    this.handleRoute();\n"@
        + "  }\n\n"@
        + "  handleRoute() {\n"@
        + "    const path = window.location.pathname;\n"@
        + "    // Route handling logic\n"@
        + "  }\n"@
        + "}\n"@
}

/// The placeholder comment of a layout declaration.
pub open spec fn layout_note(name: Seq<char>) -> Seq<char> {
    "// Layout: "@
        + name
        + "\n"@
        + "// Layout implementation will be generated here\n"@
}

/// The empty keyframes block of an animation declaration.
pub open spec fn keyframes(name: Seq<char>) -> Seq<char> {
    "@keyframes "@
        + name
        + " {\n"@
        + "  /* Keyframes will be generated here */\n"@
        + "}\n\n"@
}

/// The placeholder comment of a type declaration.
pub open spec fn type_note(name: Seq<char>) -> Seq<char> {
    "// Type: "@
        + name
        + "\n"@
        + "// Type definition will be generated here\n"@
}

/// The function of a hook declaration: it is named `use` followed by the capitalized hook
/// name `capitalized`.
pub open spec fn hook_function(capitalized: Seq<char>) -> Seq<char> {
    "function use"@
        + capitalized
        + "() {\n"@
        + "  // Hook implementation\n"@
        + "}\n"@
}

/// The placeholder class of a plugin declaration.
pub open spec fn plugin_class(name: Seq<char>) -> Seq<char> {
    "class "@
        + name
        + " {\n"@
        + "  constructor() {\n"@
        + "    // Plugin initialization\n"@
        + "  }\n"@
        + "}\n"@
}

/// The placeholder object of a config declaration.
pub open spec fn config_object() -> Seq<char> {
    "const config = {\n"@
        + "  // Configuration will be generated here\n"@
        + "};\n"@
}

/// What a node emits: every construct contributes a fixed template, filled with its own
/// fields, to the text that it belongs to. A page wraps the markup of its body into a
/// document and passes the style and script of its body on. Routes, elements, text and
/// expressions emit nothing.
pub open spec fn emitted(node: Node) -> Output
    decreases node,
{
    match node {
        Node::Program(statements) => emitted_all(statements),
        Node::Page { attributes, body, .. } => {
            let inner = emitted_all(body);
            Output { markup: page_head(attributes) + inner.markup + page_foot(), ..inner }
        },
        Node::Component { name, .. } => Output {
            markup: Seq::empty(),
            style: component_style(name, lowercase_of(name)),
            script: component_script(lowercase_of(name), capitalized(name)),
        },
        Node::Style { selector, .. } => style_only(style_rule(selector)),
        Node::Event { event_type, target, .. } => script_only(event_listener(event_type, target)),
        Node::State { name, .. } => script_only(state_object(name)),
        Node::Api { name, .. } => script_only(api_class(name)),
        Node::Router { .. } => script_only(router_class()),
        Node::Layout { name, .. } => script_only(layout_note(name)),
        Node::Animation { name, .. } => style_only(keyframes(name)),
        Node::Type { name, .. } => script_only(type_note(name)),
        Node::Hook { name, .. } => script_only(hook_function(capitalized(name))),
        Node::Plugin { name, .. } => script_only(plugin_class(name)),
        Node::Config { .. } => script_only(config_object()),
        Node::Import { specifiers, source } => script_only(import_statement(specifiers, source)),
        Node::Export { specifiers, source, is_default } => script_only(
            export_statement(specifiers, source, is_default),
        ),
        Node::Route { .. } => nothing(),
        Node::Element { .. } => nothing(),
        Node::Text { .. } => nothing(),
        Node::Expression { .. } => nothing(),
    }
}

/// What a sequence of nodes emits: what each of them emits, in order.
pub open spec fn emitted_all(nodes: Seq<Node>) -> Output
    decreases nodes,
{
    if nodes.len() == 0 {
        nothing()
    } else {
        appended(emitted_all(nodes.drop_last()), emitted(nodes.last()))
    }
}

/// Appending nothing changes nothing.
pub proof fn lemma_appended_nothing(base: Output)
    ensures
        appended(base, nothing()) == base,
        appended(nothing(), base) == base,
{
    assert(appended(base, nothing()).markup =~= base.markup);
    assert(appended(base, nothing()).style =~= base.style);
    assert(appended(base, nothing()).script =~= base.script);
    assert(appended(nothing(), base).markup =~= base.markup);
    assert(appended(nothing(), base).style =~= base.style);
    assert(appended(nothing(), base).script =~= base.script);
}

/// Appending in two steps is appending the two together.
pub proof fn lemma_appended_twice(base: Output, first: Output, second: Output)
    ensures
        appended(appended(base, first), second) == appended(base, appended(first, second)),
{
    let left = appended(appended(base, first), second);
    let right = appended(base, appended(first, second));
    assert(left.markup =~= right.markup);
    assert(left.style =~= right.style);
    assert(left.script =~= right.script);
}

/// What two sequences of nodes emit one after the other is what their concatenation
/// emits: no node's contribution depends on its neighbours.
pub proof fn lemma_emitted_all_concat(first: Seq<Node>, second: Seq<Node>)
    ensures
        emitted_all(first + second) == appended(emitted_all(first), emitted_all(second)),
    decreases second.len(),
{
    if second.len() == 0 {
        assert(first + second =~= first);
        lemma_appended_nothing(emitted_all(first));
    } else {
        assert((first + second).drop_last() =~= first + second.drop_last());
        assert((first + second).last() == second.last());
        lemma_emitted_all_concat(first, second.drop_last());
        lemma_appended_twice(
            emitted_all(first),
            emitted_all(second.drop_last()),
            emitted(second.last()),
        );
    }
}

} // verus!
