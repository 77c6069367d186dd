//! The syntax tree: attribute pairs, the tree as a mathematical value and the tree that the
//! program holds.

use vstd::prelude::*;
use crate::text::same_text;

verus! {

/// Attribute pairs as a mathematical value: keys with their values, in the order in which
/// the keys first appeared.
pub type Pairs = Seq<(Seq<char>, Seq<char>)>;

/// No key occurs twice.
pub open spec fn distinct_keys(pairs: Pairs) -> bool {
    forall|i: int, j: int| 0 <= i < j < pairs.len() ==> pairs[i].0 != pairs[j].0
}

/// The value stored under `key`, if there is one.
pub open spec fn lookup(pairs: Pairs, key: Seq<char>) -> Option<Seq<char>>
    decreases pairs.len(),
{
    if pairs.len() == 0 {
        None
    } else if pairs.last().0 == key {
        Some(pairs.last().1)
    } else {
        lookup(pairs.drop_last(), key)
    }
}

/// The pairs with `value` in place of whatever stood under `key`.
pub open spec fn replaced(pairs: Pairs, key: Seq<char>, value: Seq<char>) -> Pairs {
    pairs.map_values(
        |pair: (Seq<char>, Seq<char>)|
            if pair.0 == key {
                (key, value)
            } else {
                pair
            },
    )
}

/// The pairs after storing `value` under `key`: an existing key keeps its place and takes
/// the new value, a new key goes to the end.
pub open spec fn put(pairs: Pairs, key: Seq<char>, value: Seq<char>) -> Pairs {
    if lookup(pairs, key) is Some {
        replaced(pairs, key, value)
    } else {
        pairs.push((key, value))
    }
}

/// A key is found exactly when some pair carries it.
pub proof fn lemma_lookup_finds(pairs: Pairs, key: Seq<char>)
    ensures
        lookup(pairs, key) is Some <==> exists|i: int|
            0 <= i < pairs.len() && #[trigger] pairs[i].0 == key,
    decreases pairs.len(),
{
    if pairs.len() > 0 {
        lemma_lookup_finds(pairs.drop_last(), key);
        if pairs.last().0 == key {
            assert(pairs[pairs.len() - 1].0 == key);
        } else if lookup(pairs.drop_last(), key) is Some {
            let i = choose|i: int|
                0 <= i < pairs.drop_last().len() && #[trigger] pairs.drop_last()[i].0 == key;
            assert(pairs[i].0 == key);
        } else {
            assert forall|i: int| 0 <= i < pairs.len() implies #[trigger] pairs[i].0 != key by {
                if i < pairs.len() - 1 {
                    assert(pairs.drop_last()[i].0 != key);
                }
            }
        }
    }
}

/// What is found after a replacement: the new value under `key` if the key was there, and
/// under every other key what was there before.
pub proof fn lemma_lookup_replaced(
    pairs: Pairs,
    key: Seq<char>,
    value: Seq<char>,
    wanted: Seq<char>,
)
    ensures
        lookup(replaced(pairs, key, value), wanted) == (if wanted == key {
            if lookup(pairs, key) is Some {
                Some(value)
            } else {
                None
            }
        } else {
            lookup(pairs, wanted)
        }),
    decreases pairs.len(),
{
    if pairs.len() > 0 {
        lemma_lookup_replaced(pairs.drop_last(), key, value, wanted);
        assert(replaced(pairs, key, value).drop_last() =~= replaced(
            pairs.drop_last(),
            key,
            value,
        ));
    }
}

/// Storing a value keeps the keys distinct; the stored value is the one found afterwards,
/// and every other key keeps what it had.
pub proof fn lemma_put(pairs: Pairs, key: Seq<char>, value: Seq<char>, other: Seq<char>)
    requires
        distinct_keys(pairs),
    ensures
        distinct_keys(put(pairs, key, value)),
        lookup(put(pairs, key, value), key) == Some(value),
        other != key ==> lookup(put(pairs, key, value), other) == lookup(pairs, other),
{
    let after = put(pairs, key, value);
    if lookup(pairs, key) is Some {
        lemma_lookup_replaced(pairs, key, value, key);
        lemma_lookup_replaced(pairs, key, value, other);
        assert forall|i: int, j: int| 0 <= i < j < after.len() implies after[i].0
            != after[j].0 by {
            assert(after[i].0 == pairs[i].0);
            assert(after[j].0 == pairs[j].0);
        }
    } else {
        lemma_lookup_finds(pairs, key);
        assert(after.drop_last() =~= pairs);
        assert forall|i: int, j: int| 0 <= i < j < after.len() implies after[i].0
            != after[j].0 by {
            if j == pairs.len() {
                assert(pairs[i].0 != key);
            }
        }
    }
}

/// The attributes of a declaration: values under distinct keys.
#[derive(Debug, Clone)]
pub struct Attributes {
    entries: Vec<(String, String)>,
}

impl View for Attributes {
    type V = Pairs;

    closed spec fn view(&self) -> Pairs {
        Seq::new(self.entries.len() as nat, |i: int| (self.entries[i].0@, self.entries[i].1@))
    }
}

impl Attributes {
    /// No attributes.
    pub fn new() -> (attributes: Self)
        ensures
            attributes@ == Pairs::empty(),
    {
        let attributes = Self { entries: Vec::new() };
        assert(attributes@ =~= Pairs::empty());
        attributes
    }

    /// Stores `value` under `key`, replacing what was there.
    pub fn insert(&mut self, key: String, value: String)
        ensures
            final(self)@ == put(old(self)@, key@, value@),
    {
        let ghost before = self@;
        let mut found = false;
        let mut i: usize = 0;
        while i < self.entries.len()
            invariant
                i <= self.entries.len(),
                self@.len() == before.len(),
                found <==> lookup(before.take(i as int), key@) is Some,
                forall|j: int|
                    0 <= j < i ==> #[trigger] self@[j] == (if before[j].0 == key@ {
                        (key@, value@)
                    } else {
                        before[j]
                    }),
                forall|j: int| i <= j < before.len() ==> #[trigger] self@[j] == before[j],
            decreases self.entries.len() - i,
        {
            assert(before.take(i + 1).drop_last() =~= before.take(i as int));
            assert(self@[i as int] == before[i as int]);
            if self.entries[i].0 == key {
                let ghost previous = self@;
                self.entries.set(i, (key.clone(), value.clone()));
                found = true;
                assert forall|j: int| 0 <= j < before.len() && j != i implies #[trigger] self@[j]
                    == previous[j] by {}
            }
            i += 1;
        }
        assert(before.take(i as int) =~= before);
        proof {
            lemma_lookup_finds(before, key@);
        }
        if found {
            assert(self@ =~= put(before, key@, value@));
        } else {
            assert forall|j: int| 0 <= j < before.len() implies self@[j] == before[j] by {
                assert(before[j].0 != key@);
            }
            assert(self@ =~= before);
            self.entries.push((key, value));
            assert(self@ =~= put(before, key@, value@));
        }
    }

    /// The value stored under `key`, if there is one.
    pub fn get(&self, key: &str) -> (found: Option<&String>)
        ensures
            match found {
                Some(value) => lookup(self@, key@) == Some(value@),
                None => lookup(self@, key@) is None,
            },
    {
        let mut i: usize = self.entries.len();
        assert(self@.take(i as int) =~= self@);
        while i > 0
            invariant
                i <= self.entries.len(),
                lookup(self@, key@) == lookup(self@.take(i as int), key@),
            decreases i,
        {
            assert(self@.take(i as int).drop_last() =~= self@.take(i - 1));
            i -= 1;
            if same_text(self.entries[i].0.as_str(), key) {
                return Some(&self.entries[i].1);
            }
        }
        None
    }
}

/// A syntax tree as a mathematical value: one variant per construct of the language, each
/// with the fields of that construct alone.
#[allow(inconsistent_fields)]
pub enum Node {
    Program(Seq<Node>),
    Page { name: Seq<char>, attributes: Pairs, body: Seq<Node> },
    Component {
        name: Seq<char>,
        type_params: Seq<Seq<char>>,
        props: Seq<Node>,
        events: Seq<Node>,
        state: Seq<Node>,
        methods: Seq<Node>,
        render: Option<Box<Node>>,
    },
    Style { selector: Seq<char>, rules: Seq<Node> },
    Event { event_type: Seq<char>, target: Seq<char>, body: Seq<Node> },
    State { name: Seq<char>, properties: Seq<Node> },
    Api { name: Seq<char>, properties: Pairs, methods: Seq<Node> },
    Router { routes: Seq<Node> },
    Route { path: Seq<char>, component: Seq<char>, options: Pairs },
    Layout { name: Seq<char>, render: Option<Box<Node>> },
    Animation { name: Seq<char>, keyframes: Seq<Node> },
    Type { name: Seq<char>, definition: Option<Box<Node>> },
    Hook { name: Seq<char>, parameters: Seq<Node>, body: Seq<Node> },
    Plugin { name: Seq<char>, properties: Pairs },
    Config { properties: Pairs },
    Import { specifiers: Seq<Seq<char>>, source: Seq<char> },
    Export { specifiers: Seq<Seq<char>>, source: Seq<char>, is_default: bool },
    Element { tag_name: Seq<char>, attributes: Pairs, children: Seq<Node>, self_closing: bool },
    Text { value: Seq<char> },
    Expression { expression: Seq<char> },
}

/// A node of the syntax tree.
#[derive(Debug)]
#[allow(inconsistent_fields)]
pub enum ASTNode {
    Program(Vec<ASTNode>),
    Page { name: String, attributes: Attributes, body: Vec<ASTNode> },
    Component {
        name: String,
        type_params: Vec<String>,
        props: Vec<ASTNode>,
        events: Vec<ASTNode>,
        state: Vec<ASTNode>,
        methods: Vec<ASTNode>,
        render: Option<Box<ASTNode>>,
    },
    Style { selector: String, rules: Vec<ASTNode> },
    Event { event_type: String, target: String, body: Vec<ASTNode> },
    State { name: String, properties: Vec<ASTNode> },
    Api { name: String, properties: Attributes, methods: Vec<ASTNode> },
    Router { routes: Vec<ASTNode> },
    Route { path: String, component: String, options: Attributes },
    Layout { name: String, render: Option<Box<ASTNode>> },
    Animation { name: String, keyframes: Vec<ASTNode> },
    Type { name: String, definition: Option<Box<ASTNode>> },
    Hook { name: String, parameters: Vec<ASTNode>, body: Vec<ASTNode> },
    Plugin { name: String, properties: Attributes },
    Config { properties: Attributes },
    Import { specifiers: Vec<String>, source: String },
    Export { specifiers: Vec<String>, source: String, is_default: bool },
    Element { tag_name: String, attributes: Attributes, children: Vec<ASTNode>, self_closing: bool },
    Text { value: String },
    Expression { expression: String },
}

/// The texts of a sequence of strings, in order.
pub open spec fn texts(strings: Seq<String>) -> Seq<Seq<char>> {
    strings.map_values(|s: String| s@)
}

/// The view of an optional boxed tree.
pub open spec fn boxed_view(node: Option<Box<ASTNode>>) -> Option<Box<Node>>
    decreases node,
{
    match node {
        Some(inner) => Some(Box::new((*inner)@)),
        None => None,
    }
}

/// The views of a sequence of trees, in order.
pub open spec fn node_views(nodes: Seq<ASTNode>) -> Seq<Node>
    decreases nodes,
{
    if nodes.len() == 0 {
        Seq::empty()
    } else {
        node_views(nodes.drop_last()).push(nodes.last()@)
    }
}

impl View for ASTNode {
    type V = Node;

    open spec fn view(&self) -> Node
        decreases self,
    {
        match self {
            ASTNode::Program(statements) => Node::Program(node_views(statements@)),
            ASTNode::Page { name, attributes, body } => Node::Page {
                name: name@,
                attributes: attributes@,
                body: node_views(body@),
            },
            ASTNode::Component { name, type_params, props, events, state, methods, render } => {
                Node::Component {
                    name: name@,
                    type_params: texts(type_params@),
                    props: node_views(props@),
                    events: node_views(events@),
                    state: node_views(state@),
                    methods: node_views(methods@),
                    render: boxed_view(*render),
                }
            },
            ASTNode::Style { selector, rules } => Node::Style {
                selector: selector@,
                rules: node_views(rules@),
            },
            ASTNode::Event { event_type, target, body } => Node::Event {
                event_type: event_type@,
                target: target@,
                body: node_views(body@),
            },
            ASTNode::State { name, properties } => Node::State {
                name: name@,
                properties: node_views(properties@),
            },
            ASTNode::Api { name, properties, methods } => Node::Api {
                name: name@,
                properties: properties@,
                methods: node_views(methods@),
            },
            ASTNode::Router { routes } => Node::Router { routes: node_views(routes@) },
            ASTNode::Route { path, component, options } => Node::Route {
                path: path@,
                component: component@,
                options: options@,
            },
            ASTNode::Layout { name, render } => Node::Layout {
                name: name@,
                render: boxed_view(*render),
            },
            ASTNode::Animation { name, keyframes } => Node::Animation {
                name: name@,
                keyframes: node_views(keyframes@),
            },
            ASTNode::Type { name, definition } => Node::Type {
                name: name@,
                definition: boxed_view(*definition),
            },
            ASTNode::Hook { name, parameters, body } => Node::Hook {
                name: name@,
                parameters: node_views(parameters@),
                body: node_views(body@),
            },
            ASTNode::Plugin { name, properties } => Node::Plugin {
                name: name@,
                properties: properties@,
            },
            ASTNode::Config { properties } => Node::Config { properties: properties@ },
            ASTNode::Import { specifiers, source } => Node::Import {
                specifiers: texts(specifiers@),
                source: source@,
            },
            ASTNode::Export { specifiers, source, is_default } => Node::Export {
                specifiers: texts(specifiers@),
                source: source@,
                is_default: *is_default,
            },
            ASTNode::Element { tag_name, attributes, children, self_closing } => Node::Element {
                tag_name: tag_name@,
                attributes: attributes@,
                children: node_views(children@),
                self_closing: *self_closing,
            },
            ASTNode::Text { value } => Node::Text { value: value@ },
            ASTNode::Expression { expression } => Node::Expression { expression: expression@ },
        }
    }
}

/// Appending a tree appends its view.
pub proof fn lemma_node_views_push(nodes: Seq<ASTNode>, node: ASTNode)
    ensures
        node_views(nodes.push(node)) == node_views(nodes).push(node@),
{
    assert(nodes.push(node).drop_last() =~= nodes);
}

/// The views line up with the trees, one for one.
pub proof fn lemma_node_views_index(nodes: Seq<ASTNode>)
    ensures
        node_views(nodes).len() == nodes.len(),
        forall|i: int| 0 <= i < nodes.len() ==> #[trigger] node_views(nodes)[i] == nodes[i]@,
    decreases nodes.len(),
{
    if nodes.len() > 0 {
        lemma_node_views_index(nodes.drop_last());
        assert(node_views(nodes) == node_views(nodes.drop_last()).push(nodes.last()@));
    } else {
        assert(node_views(nodes) == Seq::<Node>::empty());
    }
}

} // verus!
