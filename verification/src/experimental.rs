//! The lightweight walk over a syntax tree. It records each reference with
//! the namespaces that enclose it, and keeps the definition of a class or
//! module only where the namespace holds a method definition of its own, so
//! that a file that merely reopens a namespace does not count as defining
//! it.

use crate::associations::{
    association_references, get_references_from_active_record_association,
};
use crate::names::{
    casgn_name, casgn_target_location, const_const_name, fetch_casgn_name,
    fetch_const_const_name, fetch_const_name, fetch_node_location,
};
use crate::nodes::{Casgn, Class, Const, Def, Module, Node, Send};
use crate::parser::{
    declaration, fully_qualified_name, namespaces_of_reference, popped, qualify_from_root,
    retained_namespaces,
};
use crate::processed_file::{ProcessedFile, ProcessedFileView};
use crate::references::{
    definitions_view, lemma_definitions_view_push, lemma_references_view_concat, lemma_references_view_push,
    references_view,
    superclasses_view, Definition, DefinitionView, Reference, ReferenceView, SuperclassReference,
};
use crate::span::{loc_to_range, range_of, Location, SourceIndex};
use crate::text::{clone_strings, is_root_anchored, lemma_strings_view_push, strings_view};
use vstd::prelude::*;
use vstd::string::StringSliceAdditionalSpecFns;

verus! {

/// The state of a lightweight walk: what was collected so far, the
/// namespaces that are open, outermost first, and whether the innermost
/// open namespace has held a method definition so far.
pub struct CollectorView {
    pub text: Seq<u8>,
    pub references: Seq<ReferenceView>,
    pub definitions: Seq<DefinitionView>,
    pub current_namespaces: Seq<Seq<char>>,
    pub behavioral_change_in_namespace: bool,
}

/// The state after the walk has visited `node` in the state `st`.
pub open spec fn visit(node: Node, st: CollectorView) -> CollectorView
    decreases node, 0nat,
{
    match node {
        Node::Class(inner) => on_class(inner, st),
        Node::Module(inner) => on_module(inner, st),
        Node::Casgn(inner) => on_casgn(inner, st),
        Node::Const(inner) => on_const(inner, st),
        Node::Send(inner) => on_send(inner, st),
        Node::Def(inner) => on_def(inner, st),
        Node::Kwargs(inner) => visit_first(inner.pairs@, inner.pairs@.len(), st),
        Node::Pair(inner) => visit(*inner.value, visit(*inner.key, st)),
        Node::Other(children) => visit_first(children@, children@.len(), st),
        _ => st,
    }
}

/// The state after the walk has visited `node`, if there is one.
pub open spec fn visit_optional(node: Option<Box<Node>>, st: CollectorView) -> CollectorView
    decreases node, 0nat,
{
    match node {
        Some(inner) => visit(*inner, st),
        None => st,
    }
}

/// The state after the walk has visited the first `count` of `nodes`, one
/// after the other.
pub open spec fn visit_first(nodes: Seq<Node>, count: nat, st: CollectorView) -> CollectorView
    decreases nodes, count,
{
    if count == 0 || count > nodes.len() {
        st
    } else {
        visit(nodes[count - 1], visit_first(nodes, (count - 1) as nat, st))
    }
}

/// The state after the body of the namespace `namespace`, whose name stands
/// at `name_location`, was visited inside the open namespaces. The body is
/// visited with the namespace open. The namespace is recorded as a
/// definition, after all that its body defines, if the body held a method
/// definition outside any namespace nested in it. Afterwards the namespace
/// is closed, and the enclosing namespace is again as it was in this
/// respect.
pub open spec fn on_namespace(
    namespace: Seq<char>,
    name_location: Location,
    body: Option<Box<Node>>,
    st: CollectorView,
) -> CollectorView
    decreases body, 1nat,
{
    let stack = st.current_namespaces.push(namespace);
    let definition = DefinitionView {
        fully_qualified_name: fully_qualified_name(st.current_namespaces, namespace),
        location: range_of(st.text, name_location),
        namespace_path: stack,
    };
    let inside = visit_optional(
        body,
        CollectorView {
            current_namespaces: stack,
            behavioral_change_in_namespace: false,
            ..st
        },
    );
    CollectorView {
        definitions: if inside.behavioral_change_in_namespace {
            inside.definitions.push(definition)
        } else {
            inside.definitions
        },
        behavioral_change_in_namespace: st.behavioral_change_in_namespace,
        current_namespaces: popped(inside.current_namespaces),
        ..inside
    }
}

/// The state after a class. A class whose name is no path of constants is
/// passed over with all that it holds. Otherwise its superclass is visited
/// like any other expression, then its body as that of a namespace.
pub open spec fn on_class(node: Class, st: CollectorView) -> CollectorView
    decreases node, 0nat,
{
    match declaration(*node.name) {
        None => st,
        Some((namespace, name_location)) => on_namespace(
            namespace,
            name_location,
            node.body,
            visit_optional(node.superclass, st),
        ),
    }
}

/// The state after a module. A module whose name is no path of constants is
/// passed over with all that it holds.
pub open spec fn on_module(node: Module, st: CollectorView) -> CollectorView
    decreases node, 0nat,
{
    match declaration(*node.name) {
        None => st,
        Some((namespace, name_location)) => on_namespace(
            namespace,
            name_location,
            node.body,
            st,
        ),
    }
}

/// The state after a constant assignment. One whose target is no path of
/// constants is passed over with its value. Otherwise the target is recorded
/// as a definition under its name from the root, at the place of the target,
/// and the value, where the assignment has one of its own, is visited.
pub open spec fn on_casgn(node: Casgn, st: CollectorView) -> CollectorView
    decreases node, 0nat,
{
    match casgn_name(node) {
        Err(_) => st,
        Ok(name) => {
            let st1 = CollectorView {
                definitions: st.definitions.push(
                    DefinitionView {
                        fully_qualified_name: fully_qualified_name(st.current_namespaces, name),
                        location: range_of(st.text, casgn_target_location(node)),
                        namespace_path: st.current_namespaces,
                    },
                ),
                ..st
            };
            visit_optional(node.value, st1)
        },
    }
}

/// The state after a constant reference. One whose name is no path of
/// constants is passed over. Otherwise the reference is recorded with the
/// open namespaces, without those that are called like the reference.
pub open spec fn on_const(node: Const, st: CollectorView) -> CollectorView {
    match const_const_name(node) {
        Err(_) => st,
        Ok(name) => CollectorView {
            references: st.references.push(
                ReferenceView {
                    name,
                    namespace_path: retained_namespaces(st.current_namespaces, name),
                    location: range_of(st.text, node.expression_l),
                },
            ),
            ..st
        },
    }
}

/// The state after a call: the references that the call makes as an
/// association are recorded, then the receiver and the arguments are
/// visited.
pub open spec fn on_send(node: Send, st: CollectorView) -> CollectorView
    decreases node, 0nat,
{
    let st1 = CollectorView {
        references: st.references + association_references(
            st.text,
            node,
            st.current_namespaces,
        ),
        ..st
    };
    visit_first(node.args@, node.args@.len(), visit_optional(node.recv, st1))
}

/// The state after a method definition: the innermost open namespace is
/// marked as holding one, then the parameters and the body are visited.
pub open spec fn on_def(node: Def, st: CollectorView) -> CollectorView
    decreases node, 0nat,
{
    visit_optional(
        node.body,
        visit_optional(node.args, CollectorView { behavioral_change_in_namespace: true, ..st }),
    )
}

/// How the state after part of a walk relates to the state before it: the
/// text and the open namespaces are the same, a method definition that was
/// seen stays seen, what was collected before is still there, in its place,
/// and every definition that was added has a name anchored at the root.
pub open spec fn extends(before: CollectorView, after: CollectorView) -> bool {
    &&& after.text == before.text
    &&& after.current_namespaces == before.current_namespaces
    &&& before.behavioral_change_in_namespace ==> after.behavioral_change_in_namespace
    &&& before.references.is_prefix_of(after.references)
    &&& before.definitions.is_prefix_of(after.definitions)
    &&& forall|i: int|
        before.definitions.len() <= i < after.definitions.len() ==> is_root_anchored(
            #[trigger] after.definitions[i].fully_qualified_name,
        )
}

/// `extends` holds of a state and itself.
pub proof fn lemma_extends_reflexive(a: CollectorView)
    ensures
        extends(a, a),
{
    assert(a.references =~= a.references.subrange(0, a.references.len() as int));
    assert(a.definitions =~= a.definitions.subrange(0, a.definitions.len() as int));
}

/// `extends` carries over from one part of a walk to the next.
pub proof fn lemma_extends_transitive(a: CollectorView, b: CollectorView, c: CollectorView)
    requires
        extends(a, b),
        extends(b, c),
    ensures
        extends(a, c),
{
    assert(a.references =~= c.references.subrange(0, a.references.len() as int));
    assert(a.definitions =~= c.definitions.subrange(0, a.definitions.len() as int));
    assert forall|i: int| a.definitions.len() <= i < c.definitions.len() implies is_root_anchored(
        #[trigger] c.definitions[i].fully_qualified_name,
    ) by {
        if i < b.definitions.len() {
            assert(c.definitions[i] == b.definitions[i]);
        }
    }
}

/// Visiting the body of a namespace extends the state.
proof fn lemma_on_namespace_extends(
    namespace: Seq<char>,
    name_location: Location,
    body: Option<Box<Node>>,
    st: CollectorView,
)
    ensures
        extends(st, on_namespace(namespace, name_location, body, st)),
    decreases body, 1nat,
{
    let opened = CollectorView {
        current_namespaces: st.current_namespaces.push(namespace),
        behavioral_change_in_namespace: false,
        ..st
    };
    lemma_visit_optional_extends(body, opened);
    let inside = visit_optional(body, opened);
    assert(popped(inside.current_namespaces) =~= st.current_namespaces);
    let closed = on_namespace(namespace, name_location, body, st);
    assert(st.references =~= closed.references.subrange(0, st.references.len() as int));
    assert(st.definitions =~= closed.definitions.subrange(0, st.definitions.len() as int));
    assert forall|i: int| st.definitions.len() <= i < closed.definitions.len() implies is_root_anchored(
        #[trigger] closed.definitions[i].fully_qualified_name,
    ) by {
        if i < inside.definitions.len() {
            assert(closed.definitions[i] == inside.definitions[i]);
        }
    }
}

/// Every visit extends the state: when the walk leaves a node, the
/// namespaces that were open when it entered are open again, nothing that
/// was collected is lost or changed, and each new definition is named from
/// the root.
pub proof fn lemma_visit_extends(node: Node, st: CollectorView)
    ensures
        extends(st, visit(node, st)),
    decreases node, 0nat,
{
    lemma_extends_reflexive(st);
    match node {
        Node::Class(inner) => {
            match declaration(*inner.name) {
                None => {
                    assert(on_class(inner, st) == st);
                },
                Some((namespace, name_location)) => {
                    lemma_visit_optional_extends(inner.superclass, st);
                    let st1 = visit_optional(inner.superclass, st);
                    lemma_on_namespace_extends(namespace, name_location, inner.body, st1);
                    lemma_extends_transitive(
                        st,
                        st1,
                        on_namespace(namespace, name_location, inner.body, st1),
                    );
                    assert(on_class(inner, st) == on_namespace(
                        namespace,
                        name_location,
                        inner.body,
                        st1,
                    ));
                },
            }
        },
        Node::Module(inner) => {
            match declaration(*inner.name) {
                None => {
                    assert(on_module(inner, st) == st);
                },
                Some((namespace, name_location)) => {
                    lemma_on_namespace_extends(namespace, name_location, inner.body, st);
                    assert(on_module(inner, st) == on_namespace(
                        namespace,
                        name_location,
                        inner.body,
                        st,
                    ));
                },
            }
        },
        Node::Casgn(inner) => {
            match casgn_name(inner) {
                Err(_) => {
                    assert(on_casgn(inner, st) == st);
                },
                Ok(name) => {
                    let st1 = CollectorView {
                        definitions: st.definitions.push(
                            DefinitionView {
                                fully_qualified_name: fully_qualified_name(
                                    st.current_namespaces,
                                    name,
                                ),
                                location: range_of(st.text, casgn_target_location(inner)),
                                namespace_path: st.current_namespaces,
                            },
                        ),
                        ..st
                    };
                    assert(extends(st, st1));
                    lemma_visit_optional_extends(inner.value, st1);
                    lemma_extends_transitive(st, st1, visit_optional(inner.value, st1));
                    assert(on_casgn(inner, st) == visit_optional(inner.value, st1));
                },
            }
        },
        Node::Const(inner) => {},
        Node::Send(inner) => {
            let st1 = CollectorView {
                references: st.references + association_references(
                    st.text,
                    inner,
                    st.current_namespaces,
                ),
                ..st
            };
            assert(st.references =~= st1.references.subrange(0, st.references.len() as int));
            assert(extends(st, st1));
            lemma_visit_optional_extends(inner.recv, st1);
            let st2 = visit_optional(inner.recv, st1);
            lemma_extends_transitive(st, st1, st2);
            lemma_visit_first_extends(inner.args@, inner.args@.len(), st2);
            lemma_extends_transitive(st, st2, visit_first(inner.args@, inner.args@.len(), st2));
            assert(on_send(inner, st) == visit_first(inner.args@, inner.args@.len(), st2));
        },
        Node::Def(inner) => {
            let st1 = CollectorView { behavioral_change_in_namespace: true, ..st };
            assert(extends(st, st1));
            lemma_visit_optional_extends(inner.args, st1);
            let st2 = visit_optional(inner.args, st1);
            lemma_extends_transitive(st, st1, st2);
            lemma_visit_optional_extends(inner.body, st2);
            lemma_extends_transitive(st, st2, visit_optional(inner.body, st2));
            assert(on_def(inner, st) == visit_optional(inner.body, st2));
        },
        Node::Kwargs(inner) => {
            lemma_visit_first_extends(inner.pairs@, inner.pairs@.len(), st);
        },
        Node::Pair(inner) => {
            lemma_visit_extends(*inner.key, st);
            let st1 = visit(*inner.key, st);
            lemma_visit_extends(*inner.value, st1);
            lemma_extends_transitive(st, st1, visit(*inner.value, st1));
        },
        Node::Other(children) => {
            lemma_visit_first_extends(children@, children@.len(), st);
        },
        _ => {},
    }
}

/// Visiting a node that may be absent extends the state.
pub proof fn lemma_visit_optional_extends(node: Option<Box<Node>>, st: CollectorView)
    ensures
        extends(st, visit_optional(node, st)),
    decreases node, 0nat,
{
    lemma_extends_reflexive(st);
    match node {
        Some(inner) => lemma_visit_extends(*inner, st),
        None => {},
    }
}

/// Visiting nodes one after the other extends the state.
pub proof fn lemma_visit_first_extends(nodes: Seq<Node>, count: nat, st: CollectorView)
    ensures
        extends(st, visit_first(nodes, count, st)),
    decreases nodes, count,
{
    lemma_extends_reflexive(st);
    if count == 0 || count > nodes.len() {
    } else {
        lemma_visit_first_extends(nodes, (count - 1) as nat, st);
        let st1 = visit_first(nodes, (count - 1) as nat, st);
        lemma_visit_extends(nodes[count - 1], st1);
        lemma_extends_transitive(st, st1, visit(nodes[count - 1], st1));
    }
}

/// The lightweight walk itself.
pub struct ReferenceCollector<'a> {
    pub references: Vec<Reference>,
    pub definitions: Vec<Definition>,
    pub current_namespaces: Vec<String>,
    pub line_col_lookup: SourceIndex<'a>,
    pub behavioral_change_in_namespace: bool,
}

impl<'a> View for ReferenceCollector<'a> {
    type V = CollectorView;

    open spec fn view(&self) -> CollectorView {
        CollectorView {
            text: self.line_col_lookup.bytes(),
            references: references_view(self.references@),
            definitions: definitions_view(self.definitions@),
            current_namespaces: strings_view(self.current_namespaces@),
            behavioral_change_in_namespace: self.behavioral_change_in_namespace,
        }
    }
}

/// The state in which a lightweight walk over `text` begins.
pub open spec fn initial_state(text: Seq<u8>) -> CollectorView {
    CollectorView {
        text,
        references: Seq::empty(),
        definitions: Seq::empty(),
        current_namespaces: Seq::empty(),
        behavioral_change_in_namespace: false,
    }
}

impl<'a> ReferenceCollector<'a> {
    /// Begins a walk over the text of `line_col_lookup`.
    pub fn new(line_col_lookup: SourceIndex<'a>) -> (collector: ReferenceCollector<'a>)
        ensures
            collector@ == initial_state(line_col_lookup.bytes()),
    {
        let collector = ReferenceCollector {
            references: Vec::new(),
            definitions: Vec::new(),
            current_namespaces: Vec::new(),
            line_col_lookup,
            behavioral_change_in_namespace: false,
        };
        proof {
            assert(collector@.references =~= Seq::empty());
            assert(collector@.definitions =~= Seq::empty());
            assert(collector@.current_namespaces =~= Seq::empty());
        }
        collector
    }

    /// Visits `node` and all that it holds.
    pub fn visit(&mut self, node: &Node)
        ensures
            final(self)@ == visit(*node, old(self)@),
        decreases node, 0nat,
    {
        match node {
            Node::Class(inner) => self.on_class(inner),
            Node::Module(inner) => self.on_module(inner),
            Node::Casgn(inner) => self.on_casgn(inner),
            Node::Const(inner) => self.on_const(inner),
            Node::Send(inner) => self.on_send(inner),
            Node::Def(inner) => self.on_def(inner),
            Node::Kwargs(inner) => self.visit_nodes(&inner.pairs),
            Node::Pair(inner) => {
                self.visit(&inner.key);
                self.visit(&inner.value);
            },
            Node::Other(children) => self.visit_nodes(children),
            _ => {},
        }
    }

    fn visit_optional(&mut self, node: &Option<Box<Node>>)
        ensures
            final(self)@ == visit_optional(*node, old(self)@),
        decreases node, 0nat,
    {
        if let Some(inner) = node {
            self.visit(inner);
        }
    }

    fn visit_nodes(&mut self, nodes: &Vec<Node>)
        ensures
            final(self)@ == visit_first(nodes@, nodes@.len(), old(self)@),
        decreases nodes, 0nat,
    {
        let mut i: usize = 0;
        while i < nodes.len()
            invariant
                i <= nodes.len(),
                self@ == visit_first(nodes@, i as nat, old(self)@),
            decreases nodes.len() - i,
        {
            proof {
                vstd::std_specs::vec::axiom_vec_index_decreases(*nodes, i as int);
            }
            self.visit(&nodes[i]);
            i += 1;
        }
    }

    fn on_namespace(&mut self, namespace: String, name_location: Location, body: &Option<Box<Node>>)
        ensures
            final(self)@ == on_namespace(namespace@, name_location, *body, old(self)@),
        decreases body, 1nat,
    {
        let fully_qualified_name = qualify_from_root(&self.current_namespaces, namespace.as_str());
        let location = loc_to_range(name_location, &self.line_col_lookup);
        let ghost stack_before = self.current_namespaces@;
        self.current_namespaces.push(namespace);
        proof {
            lemma_strings_view_push(stack_before, namespace);
        }
        let definition = Definition {
            fully_qualified_name,
            location,
            namespace_path: clone_strings(&self.current_namespaces),
        };
        let enclosing = self.behavioral_change_in_namespace;
        self.behavioral_change_in_namespace = false;
        self.visit_optional(body);
        if self.behavioral_change_in_namespace {
            proof {
                lemma_definitions_view_push(self.definitions@, definition);
            }
            self.definitions.push(definition);
        }
        self.behavioral_change_in_namespace = enclosing;
        let ghost stack_inside = self.current_namespaces@;
        self.current_namespaces.pop();
        proof {
            assert(strings_view(self.current_namespaces@) =~= popped(strings_view(stack_inside)));
        }
    }

    /// Visits a class.
    pub fn on_class(&mut self, node: &Class)
        ensures
            final(self)@ == on_class(*node, old(self)@),
        decreases node, 0nat,
    {
        let namespace = match fetch_const_name(&node.name) {
            Ok(namespace) => namespace,
            Err(_) => {
                return ;
            },
        };
        let definition_loc = match fetch_node_location(&node.name) {
            Ok(location) => location,
            Err(_) => {
                return ;
            },
        };
        self.visit_optional(&node.superclass);
        self.on_namespace(namespace, definition_loc, &node.body);
    }

    /// Visits a module.
    pub fn on_module(&mut self, node: &Module)
        ensures
            final(self)@ == on_module(*node, old(self)@),
        decreases node, 0nat,
    {
        let namespace = match fetch_const_name(&node.name) {
            Ok(namespace) => namespace,
            Err(_) => {
                return ;
            },
        };
        let definition_loc = match fetch_node_location(&node.name) {
            Ok(location) => location,
            Err(_) => {
                return ;
            },
        };
        self.on_namespace(namespace, definition_loc, &node.body);
    }

    /// Visits a constant assignment.
    pub fn on_casgn(&mut self, node: &Casgn)
        ensures
            final(self)@ == on_casgn(*node, old(self)@),
        decreases node, 0nat,
    {
        let name = match fetch_casgn_name(node) {
            Ok(name) => name,
            Err(_) => {
                return ;
            },
        };
        let definition = Definition {
            fully_qualified_name: qualify_from_root(&self.current_namespaces, name.as_str()),
            namespace_path: clone_strings(&self.current_namespaces),
            location: loc_to_range(
                Location { begin: node.expression_l.begin, end: node.name_l.end },
                &self.line_col_lookup,
            ),
        };
        proof {
            lemma_definitions_view_push(self.definitions@, definition);
        }
        self.definitions.push(definition);
        self.visit_optional(&node.value);
    }

    /// Visits a constant reference.
    pub fn on_const(&mut self, node: &Const)
        ensures
            final(self)@ == on_const(*node, old(self)@),
    {
        let name = match fetch_const_const_name(node) {
            Ok(name) => name,
            Err(_) => {
                return ;
            },
        };
        let no_superclasses: Vec<SuperclassReference> = Vec::new();
        proof {
            assert(superclasses_view(no_superclasses@) =~= Seq::empty());
        }
        let namespace_path = namespaces_of_reference(
            &self.current_namespaces,
            &name,
            &no_superclasses,
        );
        let reference = Reference {
            name,
            namespace_path,
            location: loc_to_range(node.expression_l, &self.line_col_lookup),
        };
        proof {
            lemma_references_view_push(self.references@, reference);
        }
        self.references.push(reference);
    }

    /// Visits a call.
    pub fn on_send(&mut self, node: &Send)
        ensures
            final(self)@ == on_send(*node, old(self)@),
        decreases node, 0nat,
    {
        let mut association_references = get_references_from_active_record_association(
            node,
            &self.current_namespaces,
            &self.line_col_lookup,
        );
        proof {
            lemma_references_view_concat(self.references@, association_references@);
        }
        self.references.append(&mut association_references);
        self.visit_optional(&node.recv);
        self.visit_nodes(&node.args);
    }

    /// Visits a method definition.
    pub fn on_def(&mut self, node: &Def)
        ensures
            final(self)@ == on_def(*node, old(self)@),
        decreases node, 0nat,
    {
        self.behavioral_change_in_namespace = true;
        self.visit_optional(&node.args);
        self.visit_optional(&node.body);
    }
}

/// What processing a file with the lightweight walk yields: the references
/// and the definitions that the walk over its syntax tree collects. A file
/// without a syntax tree yields neither.
pub open spec fn processed(text: Seq<u8>, ast: Option<&Node>, path: Seq<char>) -> ProcessedFileView {
    match ast {
        Some(root) => {
            let collected = visit(*root, initial_state(text));
            ProcessedFileView {
                absolute_path: path,
                unresolved_references: collected.references,
                definitions: collected.definitions,
            }
        },
        None => ProcessedFileView {
            absolute_path: path,
            unresolved_references: Seq::empty(),
            definitions: Seq::empty(),
        },
    }
}

/// Processes the file at `path` with the text `contents` and the syntax tree
/// `ast`. `ast` is absent where the text could not be parsed.
pub fn process_from_contents(contents: &str, ast: Option<&Node>, path: &str) -> (file: ProcessedFile)
    ensures
        file@ == processed(contents.spec_bytes(), ast, path@),
{
    let ast = match ast {
        Some(some_ast) => some_ast,
        None => {
            let file = ProcessedFile {
                absolute_path: path.to_owned(),
                unresolved_references: Vec::new(),
                definitions: Vec::new(),
            };
            proof {
                assert(file@.unresolved_references =~= Seq::empty());
                assert(file@.definitions =~= Seq::empty());
            }
            return file;
        },
    };
    let lookup = SourceIndex::new(contents);
    let mut collector = ReferenceCollector::new(lookup);
    collector.visit(ast);
    ProcessedFile {
        absolute_path: path.to_owned(),
        unresolved_references: collector.references,
        definitions: collector.definitions,
    }
}

} // verus!
