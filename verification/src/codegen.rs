//! The emitter: it walks a syntax tree and appends the template of each node to the text
//! that it belongs to.

use vstd::prelude::*;
use vstd::slice::slice_subrange;
use crate::ast::{lemma_node_views_index, node_views, texts, ASTNode, Attributes};
use crate::emit::{
    api_class, appended, capitalized, component_script, component_style, config_object,
    default_clause, emitted, emitted_all, event_listener, export_statement, from_clause,
    hook_function, import_statement, joined, keyframes, layout_note, lemma_appended_nothing,
    lemma_appended_twice, markup_only, nothing, page_foot, page_head, plugin_class, router_class,
    script_only, specifier_list, state_object, style_only, style_rule, title_element, type_note,
    Output,
};
use crate::text::{chars_of, lowercase_of, string_of, to_lowercase, to_uppercase};

verus! {

/// Appends `items` to `buffer`, with `separator` between each two neighbours.
pub fn append_joined(buffer: &mut String, items: &Vec<String>, separator: &str)
    ensures
        final(buffer)@ == old(buffer)@ + joined(texts(items@), separator@),
{
    let ghost start = buffer@;
    let ghost all = texts(items@);
    let mut i: usize = 0;
    assert(start + joined(all.take(0), separator@) =~= start);
    while i < items.len()
        invariant
            i <= items.len(),
            all == texts(items@),
            buffer@ == start + joined(all.take(i as int), separator@),
        decreases items.len() - i,
    {
        let ghost before = all.take(i as int);
        let ghost now = all.take(i + 1);
        assert(now.drop_last() =~= before);
        assert(now.last() == items[i as int]@);
        if i > 0 {
            buffer.append(separator);
            assert(joined(now, separator@) == joined(before, separator@) + separator@
                + items[i as int]@);
        } else {
            assert(before =~= Seq::empty());
            assert(joined(now, separator@) == items[i as int]@);
        }
        buffer.append(items[i].as_str());
        assert(buffer@ =~= start + joined(now, separator@));
        i += 1;
    }
    assert(all.take(i as int) =~= all);
}

/// Appends a specifier list to `buffer`: a single specifier bare, any other number of them
/// in braces.
pub fn append_specifiers(buffer: &mut String, specifiers: &Vec<String>)
    ensures
        final(buffer)@ == old(buffer)@ + specifier_list(texts(specifiers@)),
{
    if specifiers.len() == 1 {
        buffer.append(specifiers[0].as_str());
    } else {
        let ghost start = buffer@;
        buffer.append("{ ");
        append_joined(buffer, specifiers, ", ");
        buffer.append(" }");
        assert(buffer@ =~= start + specifier_list(texts(specifiers@)));
    }
}

/// Appends a source clause to `buffer`, unless the source is empty.
pub fn append_source(buffer: &mut String, source: &str)
    ensures
        final(buffer)@ == old(buffer)@ + from_clause(source@),
{
    let ghost start = buffer@;
    if source.unicode_len() > 0 {
        buffer.append(" from '");
        buffer.append(source);
        buffer.append("'");
    }
    assert(buffer@ =~= start + from_clause(source@));
}

/// A text that begins with `initial` and goes on with `rest`.
pub fn with_initial(initial: String, rest: &[char]) -> (word: String)
    ensures
        word@ == initial@ + rest@,
{
    let mut word = initial;
    let tail = string_of(rest);
    word.append(tail.as_str());
    word
}

/// The word `s` with its first character in uppercase.
pub fn capitalize(s: &str) -> (word: String)
    ensures
        word@ == capitalized(s@),
{
    let chars = chars_of(s);
    if chars.len() == 0 {
        String::new()
    } else {
        let initial = to_uppercase(chars[0]);
        with_initial(initial, slice_subrange(chars.as_slice(), 1, chars.len()))
    }
}

/// The document head of a page with the given attributes, and the opening of its body.
pub fn page_head_text(attributes: &Attributes) -> (text: String)
    ensures
        text@ == page_head(attributes@),
{
    let mut text = String::from_str("<!DOCTYPE html>\n<html lang=\"en\">\n<head>\n");
    text.append("  <meta charset=\"UTF-8\">\n");
    text.append("  <meta name=\"viewport\" content=\"width=device-width, initial-scale=1.0\">\n");
    match attributes.get("title") {
        Some(title) => {
            let mut element = String::from_str("  <title>");
            element.append(title.as_str());
            element.append("</title>\n");
            text.append(element.as_str());
        },
        None => {
            assert(text@ + title_element(attributes@) =~= text@);
        },
    }
    text.append("  <link rel=\"stylesheet\" href=\"css/theme.css\">\n");
    text.append("  <link rel=\"stylesheet\" href=\"css/emadocs.css\">\n");
    text.append("  <link rel=\"stylesheet\" href=\"styles.css\">\n");
    text.append("</head>\n<body>\n");
    text
}

/// An import statement.
pub fn import_statement_text(specifiers: &Vec<String>, source: &str) -> (text: String)
    ensures
        text@ == import_statement(texts(specifiers@), source@),
{
    let mut text = String::from_str("import ");
    append_specifiers(&mut text, specifiers);
    append_source(&mut text, source);
    text.append(";\n");
    text
}

/// An export statement.
pub fn export_statement_text(specifiers: &Vec<String>, source: &str, is_default: bool) -> (text:
    String)
    ensures
        text@ == export_statement(texts(specifiers@), source@, is_default),
{
    let mut text = String::from_str("export ");
    if is_default {
        text.append("default ");
    } else {
        assert(text@ + default_clause(is_default) =~= text@);
    }
    append_specifiers(&mut text, specifiers);
    append_source(&mut text, source);
    text.append(";\n");
    text
}

/// The fixed script links and closing tags that end the document of a page.
pub fn page_foot_text() -> (text: String)
    ensures
        text@ == page_foot(),
{
    let mut text = String::from_str("  <script src=\"js/emadocs.js\"></script>\n");
    text.append("  <script src=\"script.js\"></script>\n");
    text.append("</body>\n</html>");
    text
}

/// The style rule of a component named `name`: a rule for the class `ema-` followed by the
/// lowercase name `lower`.
pub fn component_style_text(name: &str, lower: &str) -> (text: String)
    ensures
        text@ == component_style(name@, lower@),
{
    let mut text = String::from_str("/* ");
    text.append(name);
    text.append(" Component */\n");
    text.append(".ema-");
    text.append(lower);
    text.append(" {\n");
    text.append("  display: block;\n");
    text.append("  position: relative;\n");
    text.append("  box-sizing: border-box;\n");
    text.append("}\n\n");
    text
}

/// The custom element of a component: a class named `Ema` followed by the capitalized name
/// `capitalized`, with a constructor, a mount callback, a render method, a template method and
/// a listener setup, and its registration under `ema-` followed by the lowercase name `lower`.
pub fn component_script_text(lower: &str, capitalized: &str) -> (text: String)
    ensures
        text@ == component_script(lower@, capitalized@),
{
    let mut text = String::from_str("class Ema");
    text.append(capitalized);
    text.append(" extends HTMLElement {\n");
    text.append("  constructor() {\n");
    text.append("    super();\n");
    text.append("    this.attachShadow({ mode: 'open' });\n");
    text.append("  }\n\n");
    text.append("  connectedCallback() {\n");
    text.append("    this.render();\n");
    text.append("    this.setupEventListeners();\n");
    text.append("  }\n\n");
    text.append("  render() {\n");
    text.append("    this.shadowRoot.innerHTML = this.getTemplate();\n");
    text.append("  }\n\n");
    text.append("  getTemplate() {\n");
    text.append("    return `\n");
    text.append("      <div class=\"ema-");
    text.append(lower);
    text.append("\">\n");
    text.append("        <slot></slot>\n");
    text.append("      </div>\n");
    text.append("    `;\n");
    text.append("  }\n\n");
    text.append("  setupEventListeners() {\n");
    text.append("    // Event listeners will be added here\n");
    text.append("  }\n");
    text.append("}\n\n");
    text.append("customElements.define('ema-");
    text.append(lower);
    text.append("', Ema");
    text.append(capitalized);
    text.append(");\n");
    text
}

/// The placeholder rule of a style declaration.
pub fn style_rule_text(selector: &str) -> (text: String)
    ensures
        text@ == style_rule(selector@),
{
    let mut text = String::from_str("/* ");
    text.append(selector);
    text.append(" Styles */\n");
    text.append(".");
    text.append(selector);
    text.append(" {\n");
    text.append("  /* Styles will be generated here */\n");
    text.append("}\n\n");
    text
}

/// The listener registration of an event declaration.
pub fn event_listener_text(event_type: &str, target: &str) -> (text: String)
    ensures
        text@ == event_listener(event_type@, target@),
{
    let mut text = String::from_str("// Event: ");
    text.append(event_type);
    text.append(" on ");
    text.append(target);
    text.append("\n");
    text.append("document.addEventListener('");
    text.append(event_type);
    text.append("', (event) => {\n");
    text.append("  // Event handler code\n");
    text.append("});\n");
    text
}

/// The placeholder object of a state declaration.
pub fn state_object_text(name: &str) -> (text: String)
    ensures
        text@ == state_object(name@),
{
    let mut text = String::from_str("// State: ");
    text.append(name);
    text.append("\n");
    text.append("const ");
    text.append(name);
    text.append(" = {\n");
    text.append("  // State properties will be generated here\n");
    text.append("};\n");
    text
}

/// The placeholder class of an api declaration.
pub fn api_class_text(name: &str) -> (text: String)
    ensures
        text@ == api_class(name@),
{
    let mut text = String::from_str("// API: ");
    text.append(name);
    text.append("\n");
    text.append("class ");
    text.append(name);
    text.append(" {\n");
    text.append("  constructor() {\n");
    text.append("    this.baseUrl = '';\n");
    text.append("  }\n\n");
    text.append("  // API methods will be generated here\n");
    text.append("}\n");
    text
}

/// The fixed client-side router of a router declaration.
pub fn router_class_text() -> (text: String)
    ensures
        text@ == router_class(),
{
    let mut text = String::from_str("// Router\n");
    text.append("class EmadocsRouter {\n");
    text.append("  constructor() {\n");
    text.append("    this.routes = new Map();\n");
    text.append("    this.init();\n");
    text.append("  }\n\n");
    text.append("  init() {\n");
    text.append("    window.addEventListener('popstate', () => this.handleRoute());\n");
    text.append("    this.handleRoute();\n");
    text.append("  }\n\n");
    text.append("  handleRoute() {\n");
    text.append("    const path = window.location.pathname;\n");
    text.append("    // Route handling logic\n");
    text.append("  }\n");
    text.append("}\n");
    text
}

/// The placeholder comment of a layout declaration.
pub fn layout_note_text(name: &str) -> (text: String)
    ensures
        text@ == layout_note(name@),
{
    let mut text = String::from_str("// Layout: ");
    text.append(name);
    text.append("\n");
    text.append("// Layout implementation will be generated here\n");
    text
}

/// The empty keyframes block of an animation declaration.
pub fn keyframes_text(name: &str) -> (text: String)
    ensures
        text@ == keyframes(name@),
{
    let mut text = String::from_str("@keyframes ");
    text.append(name);
    text.append(" {\n");
    text.append("  /* Keyframes will be generated here */\n");
    text.append("}\n\n");
    text
}

/// The placeholder comment of a type declaration.
pub fn type_note_text(name: &str) -> (text: String)
    ensures
        text@ == type_note(name@),
{
    let mut text = String::from_str("// Type: ");
    text.append(name);
    text.append("\n");
    text.append("// Type definition will be generated here\n");
    text
}

/// The function of a hook declaration: it is named `use` followed by the capitalized hook
/// name `capitalized`.
pub fn hook_function_text(capitalized: &str) -> (text: String)
    ensures
        text@ == hook_function(capitalized@),
{
    let mut text = String::from_str("function use");
    text.append(capitalized);
    text.append("() {\n");
    text.append("  // Hook implementation\n");
    text.append("}\n");
    text
}

/// The placeholder class of a plugin declaration.
pub fn plugin_class_text(name: &str) -> (text: String)
    ensures
        text@ == plugin_class(name@),
{
    let mut text = String::from_str("class ");
    text.append(name);
    text.append(" {\n");
    text.append("  constructor() {\n");
    text.append("    // Plugin initialization\n");
    text.append("  }\n");
    text.append("}\n");
    text
}

/// The placeholder object of a config declaration.
pub fn config_object_text() -> (text: String)
    ensures
        text@ == config_object(),
{
    let mut text = String::from_str("const config = {\n");
    text.append("  // Configuration will be generated here\n");
    text.append("};\n");
    text
}

/// The emitter: it walks a syntax tree and appends to three texts, the markup, the style
/// sheet and the script.
pub struct CodeGenerator {
    html_output: String,
    css_output: String,
    js_output: String,
}

impl View for CodeGenerator {
    type V = Output;

    closed spec fn view(&self) -> Output {
        Output { markup: self.html_output@, style: self.css_output@, script: self.js_output@ }
    }
}

impl CodeGenerator {
    /// An emitter whose three texts are empty.
    pub fn new() -> (generator: Self)
        ensures
            generator@ == nothing(),
    {
        Self { html_output: String::new(), css_output: String::new(), js_output: String::new() }
    }

    /// Emits `ast`: appends what it emits to the three texts. The result is always `Ok`.
    pub fn generate(&mut self, ast: &ASTNode) -> (result: Result<(), String>)
        ensures
            result is Ok,
            final(self)@ == appended(old(self)@, emitted(ast@)),
    {
        self.visit_node(ast);
        Ok(())
    }

    /// Appends `text` to the markup.
    fn push_html(&mut self, text: &str)
        ensures
            final(self)@ == appended(old(self)@, markup_only(text@)),
    {
        self.html_output.append(text);
        assert(self@.style =~= old(self)@.style + Seq::<char>::empty());
        assert(self@.script =~= old(self)@.script + Seq::<char>::empty());
    }

    /// Appends `text` to the style sheet.
    fn push_css(&mut self, text: &str)
        ensures
            final(self)@ == appended(old(self)@, style_only(text@)),
    {
        self.css_output.append(text);
        assert(self@.markup =~= old(self)@.markup + Seq::<char>::empty());
        assert(self@.script =~= old(self)@.script + Seq::<char>::empty());
    }

    /// Appends `text` to the script.
    fn push_js(&mut self, text: &str)
        ensures
            final(self)@ == appended(old(self)@, script_only(text@)),
    {
        self.js_output.append(text);
        assert(self@.markup =~= old(self)@.markup + Seq::<char>::empty());
        assert(self@.style =~= old(self)@.style + Seq::<char>::empty());
    }

    /// Emits one node, by its kind.
    fn visit_node(&mut self, node: &ASTNode)
        ensures
            final(self)@ == appended(old(self)@, emitted(node@)),
        decreases node, 0nat,
    {
        proof {
            lemma_appended_nothing(self@);
        }
        match node {
            ASTNode::Program(statements) => {
                self.visit_all(statements);
            },
            ASTNode::Page { name: _, attributes, body } => {
                self.generate_page(attributes, body);
            },
            ASTNode::Component { name, .. } => {
                self.generate_component(name.as_str());
            },
            ASTNode::Style { selector, .. } => {
                self.generate_style(selector.as_str());
            },
            ASTNode::Event { event_type, target, .. } => {
                self.generate_event(event_type.as_str(), target.as_str());
            },
            ASTNode::State { name, .. } => {
                self.generate_state(name.as_str());
            },
            ASTNode::Api { name, .. } => {
                self.generate_api(name.as_str());
            },
            ASTNode::Router { .. } => {
                self.generate_router();
            },
            ASTNode::Layout { name, .. } => {
                self.generate_layout(name.as_str());
            },
            ASTNode::Animation { name, .. } => {
                self.generate_animation(name.as_str());
            },
            ASTNode::Type { name, .. } => {
                self.generate_type(name.as_str());
            },
            ASTNode::Hook { name, .. } => {
                self.generate_hook(name.as_str());
            },
            ASTNode::Plugin { name, .. } => {
                self.generate_plugin(name.as_str());
            },
            ASTNode::Config { .. } => {
                self.generate_config();
            },
            ASTNode::Import { specifiers, source } => {
                self.generate_import(specifiers, source.as_str());
            },
            ASTNode::Export { specifiers, source, is_default } => {
                self.generate_export(specifiers, source.as_str(), *is_default);
            },
            ASTNode::Route { .. } => {},
            ASTNode::Element { .. } => {},
            ASTNode::Text { .. } => {},
            ASTNode::Expression { .. } => {},
        }
    }

    /// Emits `nodes` in order.
    fn visit_all(&mut self, nodes: &Vec<ASTNode>)
        ensures
            final(self)@ == appended(old(self)@, emitted_all(node_views(nodes@))),
        decreases nodes, 0nat,
    {
        let ghost start = self@;
        let ghost all = node_views(nodes@);
        let mut i: usize = 0;
        proof {
            assert(all.take(0) =~= Seq::empty());
            lemma_appended_nothing(start);
        }
        while i < nodes.len()
            invariant
                i <= nodes.len(),
                all == node_views(nodes@),
                self@ == appended(start, emitted_all(all.take(i as int))),
            decreases nodes.len() - i,
        {
            proof {
                lemma_node_views_index(nodes@);
                assert(all.take(i + 1).drop_last() =~= all.take(i as int));
                assert(all.take(i + 1).last() == nodes[i as int]@);
                lemma_appended_twice(
                    start,
                    emitted_all(all.take(i as int)),
                    emitted(nodes[i as int]@),
                );
            }
            self.visit_node(&nodes[i]);
            i += 1;
        }
        proof {
            lemma_node_views_index(nodes@);
            assert(all.take(i as int) =~= all);
        }
    }

    /// Emits a page: the document head, what the body emits, the document foot.
    fn generate_page(&mut self, attributes: &Attributes, body: &Vec<ASTNode>)
        ensures
            final(self)@ == appended(
                old(self)@,
                (Output {
                    markup: page_head(attributes@) + emitted_all(node_views(body@)).markup
                        + page_foot(),
                    ..emitted_all(node_views(body@))
                }),
            ),
        decreases body, 1nat,
    {
        let ghost inner = emitted_all(node_views(body@));
        let head = page_head_text(attributes);
        self.push_html(head.as_str());
        self.visit_all(body);
        let foot = page_foot_text();
        self.push_html(foot.as_str());
        assert(self@.markup =~= old(self)@.markup + (page_head(attributes@) + inner.markup
            + page_foot()));
        assert(self@.style =~= old(self)@.style + inner.style);
        assert(self@.script =~= old(self)@.script + inner.script);
    }

    /// Emits the style rule and the custom element of a component.
    fn generate_component(&mut self, name: &str)
        ensures
            final(self)@ == appended(
                old(self)@,
                (Output {
                    markup: Seq::empty(),
                    style: component_style(name@, lowercase_of(name@)),
                    script: component_script(lowercase_of(name@), capitalized(name@)),
                }),
            ),
    {
        let lower = to_lowercase(name);
        let capital = capitalize(name);
        self.emit_component(name, lower.as_str(), capital.as_str());
    }

    /// Emits the style rule and the custom element of a component named `name`, given the
    /// lowercase form `lower` and the capitalized form `capital` of that name.
    pub fn emit_component(&mut self, name: &str, lower: &str, capital: &str)
        ensures
            final(self)@ == appended(
                old(self)@,
                (Output {
                    markup: Seq::empty(),
                    style: component_style(name@, lower@),
                    script: component_script(lower@, capital@),
                }),
            ),
    {
        let style = component_style_text(name, lower);
        self.push_css(style.as_str());
        let script = component_script_text(lower, capital);
        self.push_js(script.as_str());
        assert(self@.markup =~= old(self)@.markup + Seq::<char>::empty());
        assert(self@.style =~= old(self)@.style + style@);
        assert(self@.script =~= old(self)@.script + script@);
    }

    /// Emits the placeholder rule of a style declaration.
    fn generate_style(&mut self, selector: &str)
        ensures
            final(self)@ == appended(old(self)@, style_only(style_rule(selector@))),
    {
        let text = style_rule_text(selector);
        self.push_css(text.as_str());
    }

    /// Emits the listener registration of an event declaration.
    fn generate_event(&mut self, event_type: &str, target: &str)
        ensures
            final(self)@ == appended(
                old(self)@,
                script_only(event_listener(event_type@, target@)),
            ),
    {
        let text = event_listener_text(event_type, target);
        self.push_js(text.as_str());
    }

    /// Emits the placeholder object of a state declaration.
    fn generate_state(&mut self, name: &str)
        ensures
            final(self)@ == appended(old(self)@, script_only(state_object(name@))),
    {
        let text = state_object_text(name);
        self.push_js(text.as_str());
    }

    /// Emits the placeholder class of an api declaration.
    fn generate_api(&mut self, name: &str)
        ensures
            final(self)@ == appended(old(self)@, script_only(api_class(name@))),
    {
        let text = api_class_text(name);
        self.push_js(text.as_str());
    }

    /// Emits the client-side router.
    fn generate_router(&mut self)
        ensures
            final(self)@ == appended(old(self)@, script_only(router_class())),
    {
        let text = router_class_text();
        self.push_js(text.as_str());
    }

    /// Emits the placeholder comment of a layout declaration.
    fn generate_layout(&mut self, name: &str)
        ensures
            final(self)@ == appended(old(self)@, script_only(layout_note(name@))),
    {
        let text = layout_note_text(name);
        self.push_js(text.as_str());
    }

    /// Emits the empty keyframes block of an animation declaration.
    fn generate_animation(&mut self, name: &str)
        ensures
            final(self)@ == appended(old(self)@, style_only(keyframes(name@))),
    {
        let text = keyframes_text(name);
        self.push_css(text.as_str());
    }

    /// Emits the placeholder comment of a type declaration.
    fn generate_type(&mut self, name: &str)
        ensures
            final(self)@ == appended(old(self)@, script_only(type_note(name@))),
    {
        let text = type_note_text(name);
        self.push_js(text.as_str());
    }

    /// Emits the function of a hook declaration.
    fn generate_hook(&mut self, name: &str)
        ensures
            final(self)@ == appended(
                old(self)@,
                script_only(hook_function(capitalized(name@))),
            ),
    {
        let capital = capitalize(name);
        self.emit_hook(capital.as_str());
    }

    /// Emits the function of a hook, given the capitalized form `capital` of its name.
    pub fn emit_hook(&mut self, capital: &str)
        ensures
            final(self)@ == appended(old(self)@, script_only(hook_function(capital@))),
    {
        let text = hook_function_text(capital);
        self.push_js(text.as_str());
    }

    /// Emits the placeholder class of a plugin declaration.
    fn generate_plugin(&mut self, name: &str)
        ensures
            final(self)@ == appended(old(self)@, script_only(plugin_class(name@))),
    {
        let text = plugin_class_text(name);
        self.push_js(text.as_str());
    }

    /// Emits the placeholder object of a config declaration.
    fn generate_config(&mut self)
        ensures
            final(self)@ == appended(old(self)@, script_only(config_object())),
    {
        let text = config_object_text();
        self.push_js(text.as_str());
    }

    /// Emits an import statement.
    fn generate_import(&mut self, specifiers: &Vec<String>, source: &str)
        ensures
            final(self)@ == appended(
                old(self)@,
                script_only(import_statement(texts(specifiers@), source@)),
            ),
    {
        let text = import_statement_text(specifiers, source);
        self.push_js(text.as_str());
    }

    /// Emits an export statement.
    fn generate_export(&mut self, specifiers: &Vec<String>, source: &str, is_default: bool)
        ensures
            final(self)@ == appended(
                old(self)@,
                script_only(export_statement(texts(specifiers@), source@, is_default)),
            ),
    {
        let text = export_statement_text(specifiers, source, is_default);
        self.push_js(text.as_str());
    }

    /// The markup emitted so far.
    pub fn get_html(&self) -> (text: &str)
        ensures
            text@ == self@.markup,
    {
        self.html_output.as_str()
    }

    /// The style sheet emitted so far.
    pub fn get_css(&self) -> (text: &str)
        ensures
            text@ == self@.style,
    {
        self.css_output.as_str()
    }

    /// The script emitted so far.
    pub fn get_js(&self) -> (text: &str)
        ensures
            text@ == self@.script,
    {
        self.js_output.as_str()
    }
}

} // verus!
