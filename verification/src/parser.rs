//! The strict walk over a syntax tree: it collects every declaration and
//! every reference, each with the namespaces that enclose it, and keeps track
//! of the superclasses of the classes that are open.

use crate::associations::{
    association_references, get_references_from_active_record_association,
};
use crate::local_references::{
    is_local_reference, kept_positions, lemma_kept_in_order, location_map,
    remove_local_references, without_local_references,
};
use crate::names::{
    casgn_name, casgn_target_location, const_const_name, const_name, fetch_casgn_name,
    fetch_const_const_name, fetch_const_name, fetch_node_location, node_location,
};
use crate::nodes::{Casgn, Class, Const, Module, Node, Send};
use crate::references::{
    definitions_view, lemma_definitions_view_push, lemma_references_view_concat, lemma_references_view_push,
    references_view,
    superclasses_view, Definition, DefinitionView, Reference, ReferenceView, SuperclassReference,
    SuperclassReferenceView,
};
use crate::span::{loc_to_range, range_of, Location, SourceIndex};
use crate::text::{
    clone_strings, is_root_anchored, join_path, join_scoped, lemma_strings_view_push, root_anchor,
    root_anchored, strings_view,
};
use vstd::prelude::*;
use vstd::string::StringSliceAdditionalSpecFns;

verus! {

/// The state of a walk: what was collected so far, the namespaces that are
/// open, outermost first, and the superclasses of the open classes.
pub struct CollectorView {
    pub text: Seq<u8>,
    pub references: Seq<ReferenceView>,
    pub definitions: Seq<DefinitionView>,
    pub current_namespaces: Seq<Seq<char>>,
    pub in_superclass: bool,
    pub superclasses: Seq<SuperclassReferenceView>,
}

/// The name from the global root of `name` declared inside the namespaces
/// `stack`.
pub open spec fn fully_qualified_name(stack: Seq<Seq<char>>, name: Seq<char>) -> Seq<char> {
    root_anchored(join_scoped(stack.push(name)))
}

/// The name that a class or module is declared with and the place of that
/// name, where the name is a path of constants.
pub open spec fn declaration(name: Node) -> Option<(Seq<char>, Location)> {
    match (const_name(name), node_location(name)) {
        (Ok(namespace), Ok(location)) => Some((namespace, location)),
        _ => None,
    }
}

/// The first of `links[from..]` that is a superclass called `name`.
pub open spec fn first_superclass(
    links: Seq<SuperclassReferenceView>,
    name: Seq<char>,
    from: int,
) -> Option<SuperclassReferenceView>
    decreases links.len() - from,
{
    if from < 0 || from >= links.len() {
        None
    } else if links[from].name == name {
        Some(links[from])
    } else {
        first_superclass(links, name, from + 1)
    }
}

/// The namespaces of `stack` without those called `name`, in their order.
pub open spec fn retained_namespaces(stack: Seq<Seq<char>>, name: Seq<char>) -> Seq<Seq<char>>
    decreases stack.len(),
{
    if stack.len() == 0 {
        Seq::empty()
    } else if stack.last() != name {
        retained_namespaces(stack.drop_last(), name).push(stack.last())
    } else {
        retained_namespaces(stack.drop_last(), name)
    }
}

/// The namespaces that a reference to `name` is recorded with. Where a
/// class that is open has a superclass called `name`, they are the
/// namespaces in which the first such class was declared. Otherwise they are
/// the open namespaces without those that are called `name` themselves.
pub open spec fn reference_namespaces(
    stack: Seq<Seq<char>>,
    name: Seq<char>,
    links: Seq<SuperclassReferenceView>,
) -> Seq<Seq<char>> {
    match first_superclass(links, name, 0) {
        Some(link) => link.namespace_path,
        None => retained_namespaces(stack, name),
    }
}

/// The first `len` elements of `s`, or all of `s` where it has fewer.
pub open spec fn truncated<A>(s: Seq<A>, len: nat) -> Seq<A> {
    if len <= s.len() {
        s.subrange(0, len as int)
    } else {
        s
    }
}

/// `s` without its last element, if it has one.
pub open spec fn popped<A>(s: Seq<A>) -> Seq<A> {
    if s.len() > 0 {
        s.drop_last()
    } else {
        s
    }
}

/// The state after the walk has visited `node` in the state `st`.
pub open spec fn visit(node: Node, st: CollectorView) -> CollectorView
    decreases node, 0nat,
{
    match node {
        Node::Class(inner) => on_class(inner, st),
        Node::Module(inner) => on_module(inner, st),
        Node::Casgn(inner) => on_casgn(inner, st),
        Node::Const(inner) => on_const(inner, st),
        Node::Send(inner) => on_send(inner, st),
        Node::Def(inner) => visit_optional(inner.body, visit_optional(inner.args, st)),
        Node::Kwargs(inner) => visit_first(inner.pairs@, inner.pairs@.len(), st),
        Node::Pair(inner) => visit(*inner.value, visit(*inner.key, st)),
        Node::Other(children) => visit_first(children@, children@.len(), st),
        _ => st,
    }
}

/// The state after the walk has visited `node`, if there is one.
pub open spec fn visit_optional(node: Option<Box<Node>>, st: CollectorView) -> CollectorView
    decreases node, 0nat,
{
    match node {
        Some(inner) => visit(*inner, st),
        None => st,
    }
}

/// The state after the walk has visited the first `count` of `nodes`, one
/// after the other.
pub open spec fn visit_first(nodes: Seq<Node>, count: nat, st: CollectorView) -> CollectorView
    decreases nodes, count,
{
    if count == 0 || count > nodes.len() {
        st
    } else {
        visit(nodes[count - 1], visit_first(nodes, (count - 1) as nat, st))
    }
}

/// The state after a class. A class whose name is no path of constants is
/// passed over with all that it holds. Otherwise its superclass is visited
/// with `in_superclass` set, the class is recorded as a definition and as a
/// reference to itself under its name from the root, and its body is visited
/// inside the namespace of the class. Afterwards the namespace is closed and
/// the superclasses that were recorded for the class are dropped.
pub open spec fn on_class(node: Class, st: CollectorView) -> CollectorView
    decreases node, 0nat,
{
    match declaration(*node.name) {
        None => st,
        Some((namespace, name_location)) => {
            let st1 = match node.superclass {
                Some(inner) => CollectorView {
                    in_superclass: false,
                    ..visit(*inner, CollectorView { in_superclass: true, ..st })
                },
                None => st,
            };
            let st2 = declare_namespace(namespace, name_location, st1);
            let st3 = visit_optional(node.body, st2);
            CollectorView {
                current_namespaces: popped(st3.current_namespaces),
                superclasses: truncated(st3.superclasses, st.superclasses.len()),
                ..st3
            }
        },
    }
}

/// The state after a module: as after a class without a superclass.
pub open spec fn on_module(node: Module, st: CollectorView) -> CollectorView
    decreases node, 0nat,
{
    match declaration(*node.name) {
        None => st,
        Some((namespace, name_location)) => {
            let st2 = declare_namespace(namespace, name_location, st);
            let st3 = visit_optional(node.body, st2);
            CollectorView { current_namespaces: popped(st3.current_namespaces), ..st3 }
        },
    }
}

/// The state once the namespace `namespace`, whose name stands at
/// `name_location`, is opened inside the open namespaces: it is recorded as
/// a definition and as a reference to itself, both under its name from the
/// root, with the namespaces that are then open, and at the place of its
/// name.
pub open spec fn declare_namespace(
    namespace: Seq<char>,
    name_location: Location,
    st: CollectorView,
) -> CollectorView {
    let name = fully_qualified_name(st.current_namespaces, namespace);
    let stack = st.current_namespaces.push(namespace);
    let location = range_of(st.text, name_location);
    CollectorView {
        current_namespaces: stack,
        definitions: st.definitions.push(
            DefinitionView { fully_qualified_name: name, location, namespace_path: stack },
        ),
        references: st.references.push(ReferenceView { name, namespace_path: stack, location }),
        ..st
    }
}

/// The state after a constant assignment. One whose target is no path of
/// constants is passed over with its value. Otherwise the target is recorded
/// as a definition under its name from the root, at the place of the target,
/// and the value, where the assignment has one of its own, is visited.
pub open spec fn on_casgn(node: Casgn, st: CollectorView) -> CollectorView
    decreases node, 0nat,
{
    match casgn_name(node) {
        Err(_) => st,
        Ok(name) => {
            let st1 = CollectorView {
                definitions: st.definitions.push(
                    DefinitionView {
                        fully_qualified_name: fully_qualified_name(st.current_namespaces, name),
                        location: range_of(st.text, casgn_target_location(node)),
                        namespace_path: st.current_namespaces,
                    },
                ),
                ..st
            };
            visit_optional(node.value, st1)
        },
    }
}

/// The state after a constant reference. One whose name is no path of
/// constants is passed over. Inside a superclass expression the name is
/// first recorded as a superclass, with the open namespaces. Then the
/// reference is recorded.
pub open spec fn on_const(node: Const, st: CollectorView) -> CollectorView {
    match const_const_name(node) {
        Err(_) => st,
        Ok(name) => {
            let superclasses = if st.in_superclass {
                st.superclasses.push(
                    SuperclassReferenceView { name, namespace_path: st.current_namespaces },
                )
            } else {
                st.superclasses
            };
            CollectorView {
                superclasses,
                references: st.references.push(
                    ReferenceView {
                        name,
                        namespace_path: reference_namespaces(
                            st.current_namespaces,
                            name,
                            superclasses,
                        ),
                        location: range_of(st.text, node.expression_l),
                    },
                ),
                ..st
            }
        },
    }
}

/// The state after a call: the references that the call makes as an
/// association are recorded, then the receiver and the arguments are
/// visited.
pub open spec fn on_send(node: Send, st: CollectorView) -> CollectorView
    decreases node, 0nat,
{
    let st1 = CollectorView {
        references: st.references + association_references(
            st.text,
            node,
            st.current_namespaces,
        ),
        ..st
    };
    visit_first(node.args@, node.args@.len(), visit_optional(node.recv, st1))
}

/// How the state after part of a walk relates to the state before it: the
/// text and the open namespaces are the same, what was collected before is
/// still there, in its place, and every definition that was added has a name
/// anchored at the root.
pub open spec fn extends(before: CollectorView, after: CollectorView) -> bool {
    &&& after.text == before.text
    &&& after.current_namespaces == before.current_namespaces
    &&& before.references.is_prefix_of(after.references)
    &&& before.definitions.is_prefix_of(after.definitions)
    &&& forall|i: int|
        before.definitions.len() <= i < after.definitions.len() ==> is_root_anchored(
            #[trigger] after.definitions[i].fully_qualified_name,
        )
}

/// `extends` holds of a state and itself.
pub proof fn lemma_extends_reflexive(a: CollectorView)
    ensures
        extends(a, a),
{
    assert(a.references =~= a.references.subrange(0, a.references.len() as int));
    assert(a.definitions =~= a.definitions.subrange(0, a.definitions.len() as int));
}

/// `extends` carries over from one part of a walk to the next.
pub proof fn lemma_extends_transitive(a: CollectorView, b: CollectorView, c: CollectorView)
    requires
        extends(a, b),
        extends(b, c),
    ensures
        extends(a, c),
{
    assert(a.references =~= c.references.subrange(0, a.references.len() as int));
    assert(a.definitions =~= c.definitions.subrange(0, a.definitions.len() as int));
    assert forall|i: int| a.definitions.len() <= i < c.definitions.len() implies is_root_anchored(
        #[trigger] c.definitions[i].fully_qualified_name,
    ) by {
        if i < b.definitions.len() {
            assert(c.definitions[i] == b.definitions[i]);
        }
    }
}

/// Opening a namespace adds it to the open namespaces and extends what was
/// collected by the definition of the namespace and by the reference of
/// that definition to itself.
proof fn lemma_declare_namespace(namespace: Seq<char>, name_location: Location, st: CollectorView)
    ensures
        extends(
            CollectorView { current_namespaces: st.current_namespaces.push(namespace), ..st },
            declare_namespace(namespace, name_location, st),
        ),
{
}

/// Every visit extends the state: when the walk leaves a node, the
/// namespaces that were open when it entered are open again, nothing that
/// was collected is lost or changed, and each new definition is named from
/// the root.
pub proof fn lemma_visit_extends(node: Node, st: CollectorView)
    ensures
        extends(st, visit(node, st)),
    decreases node, 0nat,
{
    lemma_extends_reflexive(st);
    match node {
        Node::Class(inner) => {
            match declaration(*inner.name) {
                None => {
                    assert(on_class(inner, st) == st);
                },
                Some((namespace, name_location)) => {
                    let entered = CollectorView { in_superclass: true, ..st };
                    let st1 = match inner.superclass {
                        Some(superclass) => {
                            lemma_visit_extends(*superclass, entered);
                            CollectorView { in_superclass: false, ..visit(*superclass, entered) }
                        },
                        None => st,
                    };
                    assert(extends(st, st1));
                    let opened = CollectorView {
                        current_namespaces: st1.current_namespaces.push(namespace),
                        ..st1
                    };
                    let st2 = declare_namespace(namespace, name_location, st1);
                    lemma_declare_namespace(namespace, name_location, st1);
                    lemma_visit_optional_extends(inner.body, st2);
                    let st3 = visit_optional(inner.body, st2);
                    lemma_extends_transitive(opened, st2, st3);
                    assert(popped(st3.current_namespaces) =~= st1.current_namespaces);
                    let closed = CollectorView {
                        current_namespaces: st1.current_namespaces,
                        ..st3
                    };
                    assert(extends(st1, closed));
                    lemma_extends_transitive(st, st1, closed);
                    let left = CollectorView {
                        current_namespaces: popped(st3.current_namespaces),
                        superclasses: truncated(st3.superclasses, st.superclasses.len()),
                        ..st3
                    };
                    assert(on_class(inner, st) == left);
                },
            }
        },
        Node::Module(inner) => {
            match declaration(*inner.name) {
                None => {
                    assert(on_module(inner, st) == st);
                },
                Some((namespace, name_location)) => {
                    let opened = CollectorView {
                        current_namespaces: st.current_namespaces.push(namespace),
                        ..st
                    };
                    let st2 = declare_namespace(namespace, name_location, st);
                    lemma_declare_namespace(namespace, name_location, st);
                    lemma_visit_optional_extends(inner.body, st2);
                    let st3 = visit_optional(inner.body, st2);
                    lemma_extends_transitive(opened, st2, st3);
                    assert(popped(st3.current_namespaces) =~= st.current_namespaces);
                    assert(on_module(inner, st) == CollectorView {
                        current_namespaces: st.current_namespaces,
                        ..st3
                    });
                },
            }
        },
        Node::Casgn(inner) => {
            match casgn_name(inner) {
                Err(_) => {
                    assert(on_casgn(inner, st) == st);
                },
                Ok(name) => {
                    let st1 = CollectorView {
                        definitions: st.definitions.push(
                            DefinitionView {
                                fully_qualified_name: fully_qualified_name(
                                    st.current_namespaces,
                                    name,
                                ),
                                location: range_of(st.text, casgn_target_location(inner)),
                                namespace_path: st.current_namespaces,
                            },
                        ),
                        ..st
                    };
                    assert(extends(st, st1));
                    lemma_visit_optional_extends(inner.value, st1);
                    lemma_extends_transitive(st, st1, visit_optional(inner.value, st1));
                    assert(on_casgn(inner, st) == visit_optional(inner.value, st1));
                },
            }
        },
        Node::Const(inner) => {},
        Node::Send(inner) => {
            let st1 = CollectorView {
                references: st.references + association_references(
                    st.text,
                    inner,
                    st.current_namespaces,
                ),
                ..st
            };
            assert(st.references =~= st1.references.subrange(0, st.references.len() as int));
            assert(extends(st, st1));
            lemma_visit_optional_extends(inner.recv, st1);
            let st2 = visit_optional(inner.recv, st1);
            lemma_extends_transitive(st, st1, st2);
            lemma_visit_first_extends(inner.args@, inner.args@.len(), st2);
            lemma_extends_transitive(st, st2, visit_first(inner.args@, inner.args@.len(), st2));
            assert(on_send(inner, st) == visit_first(inner.args@, inner.args@.len(), st2));
        },
        Node::Def(inner) => {
            lemma_visit_optional_extends(inner.args, st);
            let st1 = visit_optional(inner.args, st);
            lemma_visit_optional_extends(inner.body, st1);
            lemma_extends_transitive(st, st1, visit_optional(inner.body, st1));
        },
        Node::Kwargs(inner) => {
            lemma_visit_first_extends(inner.pairs@, inner.pairs@.len(), st);
        },
        Node::Pair(inner) => {
            lemma_visit_extends(*inner.key, st);
            let st1 = visit(*inner.key, st);
            lemma_visit_extends(*inner.value, st1);
            lemma_extends_transitive(st, st1, visit(*inner.value, st1));
        },
        Node::Other(children) => {
            lemma_visit_first_extends(children@, children@.len(), st);
        },
        _ => {},
    }
}

/// Visiting a node that may be absent extends the state.
pub proof fn lemma_visit_optional_extends(node: Option<Box<Node>>, st: CollectorView)
    ensures
        extends(st, visit_optional(node, st)),
    decreases node, 0nat,
{
    lemma_extends_reflexive(st);
    match node {
        Some(inner) => lemma_visit_extends(*inner, st),
        None => {},
    }
}

/// Visiting nodes one after the other extends the state.
pub proof fn lemma_visit_first_extends(nodes: Seq<Node>, count: nat, st: CollectorView)
    ensures
        extends(st, visit_first(nodes, count, st)),
    decreases nodes, count,
{
    lemma_extends_reflexive(st);
    if count == 0 || count > nodes.len() {
    } else {
        lemma_visit_first_extends(nodes, (count - 1) as nat, st);
        let st1 = visit_first(nodes, (count - 1) as nat, st);
        lemma_visit_extends(nodes[count - 1], st1);
        lemma_extends_transitive(st, st1, visit(nodes[count - 1], st1));
    }
}

/// Computes the name from the global root of `name` declared inside
/// `current_namespaces`.
pub fn qualify_from_root(current_namespaces: &Vec<String>, name: &str) -> (qualified: String)
    ensures
        qualified@ == fully_qualified_name(strings_view(current_namespaces@), name@),
{
    let mut name_components = clone_strings(current_namespaces);
    let ghost before = name_components@;
    name_components.push(name.to_owned());
    proof {
        lemma_strings_view_push(before, name_components@.last());
    }
    let joined = join_path(&name_components);
    root_anchor(joined.as_str())
}

/// Computes the namespaces that a reference to `name` is recorded with.
pub fn namespaces_of_reference(
    current_namespaces: &Vec<String>,
    name: &String,
    superclasses: &Vec<SuperclassReference>,
) -> (namespace_path: Vec<String>)
    ensures
        strings_view(namespace_path@) == reference_namespaces(
            strings_view(current_namespaces@),
            name@,
            superclasses_view(superclasses@),
        ),
{
    let ghost links = superclasses_view(superclasses@);
    let mut i: usize = 0;
    while i < superclasses.len()
        invariant
            i <= superclasses.len(),
            links == superclasses_view(superclasses@),
            first_superclass(links, name@, 0) == first_superclass(links, name@, i as int),
        decreases superclasses.len() - i,
    {
        if superclasses[i].name == *name {
            return clone_strings(&superclasses[i].namespace_path);
        }
        i += 1;
    }
    let ghost stack = strings_view(current_namespaces@);
    let mut namespace_path: Vec<String> = Vec::new();
    let mut j: usize = 0;
    while j < current_namespaces.len()
        invariant
            j <= current_namespaces.len(),
            stack == strings_view(current_namespaces@),
            strings_view(namespace_path@) == retained_namespaces(
                stack.subrange(0, j as int),
                name@,
            ),
        decreases current_namespaces.len() - j,
    {
        proof {
            assert(stack.subrange(0, j + 1).drop_last() =~= stack.subrange(0, j as int));
        }
        if current_namespaces[j] != *name {
            let ghost before = namespace_path@;
            namespace_path.push(current_namespaces[j].clone());
            proof {
                lemma_strings_view_push(before, namespace_path@.last());
            }
        }
        j += 1;
    }
    proof {
        assert(stack.subrange(0, stack.len() as int) =~= stack);
    }
    namespace_path
}

/// The walk itself: the lists it fills, the namespaces that are open, and
/// the text whose offsets it turns into rows and columns.
pub struct ReferenceCollector<'a> {
    pub references: Vec<Reference>,
    pub definitions: Vec<Definition>,
    pub current_namespaces: Vec<String>,
    pub line_col_lookup: SourceIndex<'a>,
    pub in_superclass: bool,
    pub superclasses: Vec<SuperclassReference>,
}

impl<'a> View for ReferenceCollector<'a> {
    type V = CollectorView;

    open spec fn view(&self) -> CollectorView {
        CollectorView {
            text: self.line_col_lookup.bytes(),
            references: references_view(self.references@),
            definitions: definitions_view(self.definitions@),
            current_namespaces: strings_view(self.current_namespaces@),
            in_superclass: self.in_superclass,
            superclasses: superclasses_view(self.superclasses@),
        }
    }
}

/// The state in which a walk over `text` begins: nothing is collected and
/// no namespace is open.
pub open spec fn initial_state(text: Seq<u8>) -> CollectorView {
    CollectorView {
        text,
        references: Seq::empty(),
        definitions: Seq::empty(),
        current_namespaces: Seq::empty(),
        in_superclass: false,
        superclasses: Seq::empty(),
    }
}

impl<'a> ReferenceCollector<'a> {
    /// Begins a walk over the text of `line_col_lookup`.
    pub fn new(line_col_lookup: SourceIndex<'a>) -> (collector: ReferenceCollector<'a>)
        ensures
            collector@ == initial_state(line_col_lookup.bytes()),
    {
        let collector = ReferenceCollector {
            references: Vec::new(),
            definitions: Vec::new(),
            current_namespaces: Vec::new(),
            line_col_lookup,
            in_superclass: false,
            superclasses: Vec::new(),
        };
        proof {
            assert(collector@.references =~= Seq::empty());
            assert(collector@.definitions =~= Seq::empty());
            assert(collector@.current_namespaces =~= Seq::empty());
            assert(collector@.superclasses =~= Seq::empty());
        }
        collector
    }

    /// Visits `node` and all that it holds.
    pub fn visit(&mut self, node: &Node)
        ensures
            final(self)@ == visit(*node, old(self)@),
        decreases node,
    {
        match node {
            Node::Class(inner) => self.on_class(inner),
            Node::Module(inner) => self.on_module(inner),
            Node::Casgn(inner) => self.on_casgn(inner),
            Node::Const(inner) => self.on_const(inner),
            Node::Send(inner) => self.on_send(inner),
            Node::Def(inner) => {
                self.visit_optional(&inner.args);
                self.visit_optional(&inner.body);
            },
            Node::Kwargs(inner) => self.visit_nodes(&inner.pairs),
            Node::Pair(inner) => {
                self.visit(&inner.key);
                self.visit(&inner.value);
            },
            Node::Other(children) => self.visit_nodes(children),
            _ => {},
        }
    }

    fn visit_optional(&mut self, node: &Option<Box<Node>>)
        ensures
            final(self)@ == visit_optional(*node, old(self)@),
        decreases node,
    {
        if let Some(inner) = node {
            self.visit(inner);
        }
    }

    fn visit_nodes(&mut self, nodes: &Vec<Node>)
        ensures
            final(self)@ == visit_first(nodes@, nodes@.len(), old(self)@),
        decreases nodes,
    {
        let mut i: usize = 0;
        while i < nodes.len()
            invariant
                i <= nodes.len(),
                self@ == visit_first(nodes@, i as nat, old(self)@),
            decreases nodes.len() - i,
        {
            proof {
                vstd::std_specs::vec::axiom_vec_index_decreases(*nodes, i as int);
            }
            self.visit(&nodes[i]);
            i += 1;
        }
    }

    fn declare_namespace(&mut self, namespace: String, name_location: Location)
        ensures
            final(self)@ == declare_namespace(namespace@, name_location, old(self)@),
    {
        let fully_qualified_name = qualify_from_root(&self.current_namespaces, namespace.as_str());
        let ghost stack_before = self.current_namespaces@;
        self.current_namespaces.push(namespace);
        proof {
            lemma_strings_view_push(stack_before, namespace);
        }
        let location = loc_to_range(name_location, &self.line_col_lookup);
        let definition = Definition {
            fully_qualified_name: fully_qualified_name.clone(),
            namespace_path: clone_strings(&self.current_namespaces),
            location,
        };
        let reference = Reference {
            name: fully_qualified_name,
            namespace_path: clone_strings(&self.current_namespaces),
            location,
        };
        proof {
            lemma_definitions_view_push(self.definitions@, definition);
            lemma_references_view_push(self.references@, reference);
        }
        self.definitions.push(definition);
        self.references.push(reference);
    }

    /// Visits a class.
    pub fn on_class(&mut self, node: &Class)
        ensures
            final(self)@ == on_class(*node, old(self)@),
        decreases node,
    {
        let namespace = match fetch_const_name(&node.name) {
            Ok(namespace) => namespace,
            Err(_) => {
                return ;
            },
        };
        let definition_loc = match fetch_node_location(&node.name) {
            Ok(location) => location,
            Err(_) => {
                return ;
            },
        };
        let open_superclasses = self.superclasses.len();
        if let Some(inner) = &node.superclass {
            self.in_superclass = true;
            self.visit(inner);
            self.in_superclass = false;
        }
        self.declare_namespace(namespace, definition_loc);
        self.visit_optional(&node.body);
        self.close_namespace();
        self.superclasses.truncate(open_superclasses);
        proof {
            assert(self@.superclasses =~= truncated(
                visit_optional(
                    node.body,
                    declare_namespace(
                        namespace@,
                        definition_loc,
                        match node.superclass {
                            Some(inner) => CollectorView {
                                in_superclass: false,
                                ..visit(*inner, CollectorView { in_superclass: true, ..old(self)@ })
                            },
                            None => old(self)@,
                        },
                    ),
                ).superclasses,
                old(self)@.superclasses.len(),
            ));
        }
    }

    fn close_namespace(&mut self)
        ensures
            final(self)@ == (CollectorView {
                current_namespaces: popped(old(self)@.current_namespaces),
                ..old(self)@
            }),
    {
        self.current_namespaces.pop();
        proof {
            assert(self@.current_namespaces =~= popped(old(self)@.current_namespaces));
        }
    }

    /// Visits a module.
    pub fn on_module(&mut self, node: &Module)
        ensures
            final(self)@ == on_module(*node, old(self)@),
        decreases node,
    {
        let namespace = match fetch_const_name(&node.name) {
            Ok(namespace) => namespace,
            Err(_) => {
                return ;
            },
        };
        let definition_loc = match fetch_node_location(&node.name) {
            Ok(location) => location,
            Err(_) => {
                return ;
            },
        };
        self.declare_namespace(namespace, definition_loc);
        self.visit_optional(&node.body);
        self.close_namespace();
    }

    /// Visits a constant assignment.
    pub fn on_casgn(&mut self, node: &Casgn)
        ensures
            final(self)@ == on_casgn(*node, old(self)@),
        decreases node,
    {
        let name = match fetch_casgn_name(node) {
            Ok(name) => name,
            Err(_) => {
                return ;
            },
        };
        let definition = Definition {
            fully_qualified_name: qualify_from_root(&self.current_namespaces, name.as_str()),
            namespace_path: clone_strings(&self.current_namespaces),
            location: loc_to_range(
                Location { begin: node.expression_l.begin, end: node.name_l.end },
                &self.line_col_lookup,
            ),
        };
        proof {
            lemma_definitions_view_push(self.definitions@, definition);
        }
        self.definitions.push(definition);
        self.visit_optional(&node.value);
    }

    /// Visits a constant reference.
    pub fn on_const(&mut self, node: &Const)
        ensures
            final(self)@ == on_const(*node, old(self)@),
    {
        let name = match fetch_const_const_name(node) {
            Ok(name) => name,
            Err(_) => {
                return ;
            },
        };
        if self.in_superclass {
            let superclass = SuperclassReference {
                name: name.clone(),
                namespace_path: clone_strings(&self.current_namespaces),
            };
            proof {
                assert(superclasses_view(self.superclasses@.push(superclass))
                    =~= superclasses_view(self.superclasses@).push(superclass@));
            }
            self.superclasses.push(superclass);
        }
        let namespace_path = namespaces_of_reference(
            &self.current_namespaces,
            &name,
            &self.superclasses,
        );
        let reference = Reference {
            name,
            namespace_path,
            location: loc_to_range(node.expression_l, &self.line_col_lookup),
        };
        proof {
            lemma_references_view_push(self.references@, reference);
        }
        self.references.push(reference);
    }

    /// Visits a call.
    pub fn on_send(&mut self, node: &Send)
        ensures
            final(self)@ == on_send(*node, old(self)@),
        decreases node,
    {
        let mut association_references = get_references_from_active_record_association(
            node,
            &self.current_namespaces,
            &self.line_col_lookup,
        );
        proof {
            lemma_references_view_concat(self.references@, association_references@);
        }
        self.references.append(&mut association_references);
        self.visit_optional(&node.recv);
        self.visit_nodes(&node.args);
    }
}

/// The references of a file that are not local to it: those that the walk
/// over its syntax tree collects, without the ones that resolve to another
/// place of the same file. A file without a syntax tree has none.
pub open spec fn extracted_references(text: Seq<u8>, ast: Option<&Node>) -> Seq<ReferenceView> {
    match ast {
        Some(root) => {
            let collected = visit(*root, initial_state(text));
            without_local_references(collected.references, location_map(collected.definitions))
        },
        None => Seq::empty(),
    }
}

/// The references that are extracted from a file are those that the walk
/// over its syntax tree collects, in the order in which it collects them,
/// without the local ones: they stand in what was collected at positions
/// that rise strictly, and no reference that is not local is missing.
pub proof fn lemma_extracted_in_order(text: Seq<u8>, root: &Node)
    ensures
        ({
            let collected = visit(*root, initial_state(text));
            let locations = location_map(collected.definitions);
            let extracted = extracted_references(text, Some(root));
            let positions = kept_positions(collected.references, locations);
            &&& positions.len() == extracted.len()
            &&& forall|k: int|
                0 <= k < positions.len() ==> 0 <= #[trigger] positions[k]
                    < collected.references.len() && extracted[k]
                    == collected.references[positions[k]]
            &&& forall|j: int, k: int|
                0 <= j < k < positions.len() ==> positions[j] < positions[k]
            &&& forall|i: int|
                0 <= i < collected.references.len() && !is_local_reference(
                    locations,
                    #[trigger] collected.references[i],
                ) ==> positions.contains(i)
        }),
{
    let collected = visit(*root, initial_state(text));
    lemma_kept_in_order(collected.references, location_map(collected.definitions));
}

/// Extracts the references that the file with the text `contents` and the
/// syntax tree `ast` makes to what other files define. `ast` is absent where
/// the text could not be parsed.
pub fn extract_from_contents(contents: &str, ast: Option<&Node>) -> (references: Vec<Reference>)
    ensures
        references_view(references@) == extracted_references(contents.spec_bytes(), ast),
{
    let ast = match ast {
        Some(some_ast) => some_ast,
        None => {
            let references: Vec<Reference> = Vec::new();
            proof {
                assert(references_view(references@) =~= Seq::empty());
            }
            return references;
        },
    };
    let lookup = SourceIndex::new(contents);
    let mut collector = ReferenceCollector::new(lookup);
    collector.visit(ast);
    remove_local_references(&collector.references, &collector.definitions)
}

} // verus!
