//! What a source file declares and what it refers to, and the names under
//! which a reference may be found.

use crate::span::Range;
use crate::text::{
    clone_strings, is_root_anchored, join_scoped, lemma_strings_view_push, qualified, qualify,
    root_anchor, root_anchored, starts_with_scope_separator, strings_view,
};
use vstd::prelude::*;

verus! {

/// The superclass that an open class declares, with the namespaces in which
/// the declaration stands.
#[derive(Debug, PartialEq, Eq)]
pub struct SuperclassReference {
    pub name: String,
    pub namespace_path: Vec<String>,
}

/// The value of a `SuperclassReference`.
pub struct SuperclassReferenceView {
    pub name: Seq<char>,
    pub namespace_path: Seq<Seq<char>>,
}

impl View for SuperclassReference {
    type V = SuperclassReferenceView;

    open spec fn view(&self) -> SuperclassReferenceView {
        SuperclassReferenceView {
            name: self.name@,
            namespace_path: strings_view(self.namespace_path@),
        }
    }
}

/// A use of a constant: its name as written, the namespaces that enclose the
/// use from the outermost to the innermost, and where it stands.
#[derive(Debug, PartialEq, Eq)]
pub struct Reference {
    pub name: String,
    pub namespace_path: Vec<String>,
    pub location: Range,
}

/// The value of a `Reference`.
pub struct ReferenceView {
    pub name: Seq<char>,
    pub namespace_path: Seq<Seq<char>>,
    pub location: Range,
}

impl View for Reference {
    type V = ReferenceView;

    open spec fn view(&self) -> ReferenceView {
        ReferenceView {
            name: self.name@,
            namespace_path: strings_view(self.namespace_path@),
            location: self.location,
        }
    }
}

impl Clone for Reference {
    fn clone(&self) -> (copy: Reference)
        ensures
            copy@ == self@,
    {
        Reference {
            name: self.name.clone(),
            namespace_path: clone_strings(&self.namespace_path),
            location: self.location,
        }
    }
}

/// A declaration of a constant: its name from the global root, where it
/// stands, and the namespaces that enclose it.
#[derive(Debug, PartialEq, Eq)]
pub struct Definition {
    pub fully_qualified_name: String,
    pub location: Range,
    pub namespace_path: Vec<String>,
}

/// The value of a `Definition`.
pub struct DefinitionView {
    pub fully_qualified_name: Seq<char>,
    pub location: Range,
    pub namespace_path: Seq<Seq<char>>,
}

impl View for Definition {
    type V = DefinitionView;

    open spec fn view(&self) -> DefinitionView {
        DefinitionView {
            fully_qualified_name: self.fully_qualified_name@,
            location: self.location,
            namespace_path: strings_view(self.namespace_path@),
        }
    }
}

impl Clone for Definition {
    fn clone(&self) -> (copy: Definition)
        ensures
            copy@ == self@,
    {
        Definition {
            fully_qualified_name: self.fully_qualified_name.clone(),
            location: self.location,
            namespace_path: clone_strings(&self.namespace_path),
        }
    }
}

/// The values of a list of references.
pub open spec fn references_view(references: Seq<Reference>) -> Seq<ReferenceView> {
    references.map_values(|r: Reference| r@)
}

/// The values of a list of definitions.
pub open spec fn definitions_view(definitions: Seq<Definition>) -> Seq<DefinitionView> {
    definitions.map_values(|d: Definition| d@)
}

/// The values of a list of superclass references.
pub open spec fn superclasses_view(
    superclasses: Seq<SuperclassReference>,
) -> Seq<SuperclassReferenceView> {
    superclasses.map_values(|s: SuperclassReference| s@)
}

/// Appending a reference to a list appends its value to the list's value.
pub proof fn lemma_references_view_push(references: Seq<Reference>, last: Reference)
    ensures
        references_view(references.push(last)) == references_view(references).push(last@),
{
    assert(references_view(references.push(last)) =~= references_view(references).push(last@));
}

/// The value of two lists of references, one behind the other, is that of
/// the first followed by that of the second.
pub proof fn lemma_references_view_concat(left: Seq<Reference>, right: Seq<Reference>)
    ensures
        references_view(left + right) == references_view(left) + references_view(right),
{
    assert(references_view(left + right) =~= references_view(left) + references_view(right));
}

/// Appending a definition to a list appends its value to the list's value.
pub proof fn lemma_definitions_view_push(definitions: Seq<Definition>, last: Definition)
    ensures
        definitions_view(definitions.push(last)) == definitions_view(definitions).push(last@),
{
    assert(definitions_view(definitions.push(last)) =~= definitions_view(definitions).push(
        last@,
    ));
}

/// The scope that the namespaces `path`, given from the outermost to the
/// innermost, add up to: each namespace is put behind what the namespaces
/// before it add up to, with the scope separator between the two. Where
/// those before it add up to nothing, the namespace stands alone, without a
/// separator.
pub open spec fn accumulated(path: Seq<Seq<char>>) -> Seq<char>
    decreases path.len(),
{
    if path.len() == 0 {
        Seq::empty()
    } else {
        let previous = accumulated(path.drop_last());
        if previous.len() == 0 {
            path.last()
        } else {
            qualified(previous, path.last())
        }
    }
}

/// The scopes in which a constant is searched at a place that the
/// namespaces `path` enclose, from the innermost scope to the outermost. The
/// namespaces are given from the outermost to the innermost; the scope at
/// position `i` is what all but the last `i` of them add up to.
pub open spec fn module_nesting(path: Seq<Seq<char>>) -> Seq<Seq<char>> {
    Seq::new(path.len(), |i: int| accumulated(path.subrange(0, path.len() - i)))
}

/// The names under which a reference to `name` from inside the namespaces
/// `path` may be defined, in the order in which they are tried. A name that
/// is anchored at the root has itself only. Any other name comes first as it
/// is written; then, for each scope of the nesting from the innermost to the
/// outermost, comes the root-anchored name of `name` inside that scope.
pub open spec fn fully_qualified_candidates(
    name: Seq<char>,
    path: Seq<Seq<char>>,
) -> Seq<Seq<char>> {
    if is_root_anchored(name) {
        seq![name]
    } else {
        seq![name] + module_nesting(path).map_values(
            |scope: Seq<char>| qualified(root_anchored(scope), name),
        )
    }
}

/// Where no namespace of a path is empty, the namespaces add up to their
/// plain join by the scope separator, which is empty for the empty path
/// only.
pub proof fn lemma_accumulated_is_join(path: Seq<Seq<char>>)
    requires
        forall|i: int| 0 <= i < path.len() ==> (#[trigger] path[i]).len() > 0,
    ensures
        accumulated(path) == join_scoped(path),
        path.len() > 0 ==> accumulated(path).len() > 0,
    decreases path.len(),
{
    if path.len() > 0 {
        let shorter = path.drop_last();
        assert forall|i: int| 0 <= i < shorter.len() implies (#[trigger] shorter[i]).len()
            > 0 by {
            assert(shorter[i] == path[i]);
        }
        lemma_accumulated_is_join(shorter);
        assert(path.last() == path[path.len() - 1]);
        if path.len() == 1 {
            assert(shorter.len() == 0);
        }
    }
}

/// The nesting of a path has one scope for each namespace of the path; the
/// scope at position `i` is what all but the last `i` namespaces add up to.
/// So the nesting of no namespaces is empty, and that of one namespace is
/// that namespace alone.
pub proof fn lemma_module_nesting(path: Seq<Seq<char>>)
    ensures
        module_nesting(path).len() == path.len(),
        forall|i: int|
            0 <= i < path.len() ==> #[trigger] module_nesting(path)[i] == accumulated(
                path.subrange(0, path.len() - i),
            ),
        path.len() == 0 ==> module_nesting(path) == Seq::<Seq<char>>::empty(),
        path.len() == 1 ==> module_nesting(path) == seq![path[0]],
{
    if path.len() == 0 {
        assert(module_nesting(path) =~= Seq::<Seq<char>>::empty());
    }
    if path.len() == 1 {
        assert(path.subrange(0, 1) =~= path);
        assert(path.drop_last().len() == 0);
        assert(accumulated(path.drop_last()).len() == 0);
        assert(accumulated(path) == path[0]);
        assert(module_nesting(path) =~= seq![path[0]]);
    }
}

/// The candidates of a reference begin with the name as it is written. A
/// name anchored at the root has no other candidate. Any other name has one
/// more candidate for each enclosing namespace: the candidate at position
/// `i + 1` is the root-anchored name inside the scope that all but the last
/// `i` namespaces add up to, so that the innermost scope is tried before the
/// outer ones.
pub proof fn lemma_candidate_order(name: Seq<char>, path: Seq<Seq<char>>)
    ensures
        fully_qualified_candidates(name, path).len() >= 1,
        fully_qualified_candidates(name, path)[0] == name,
        is_root_anchored(name) ==> fully_qualified_candidates(name, path) == seq![name],
        !is_root_anchored(name) ==> fully_qualified_candidates(name, path).len() == 1
            + path.len(),
        !is_root_anchored(name) ==> forall|i: int|
            0 <= i < path.len() ==> #[trigger] fully_qualified_candidates(name, path)[i + 1]
                == qualified(root_anchored(accumulated(path.subrange(0, path.len() - i))), name),
        forall|i: int|
            1 <= i < fully_qualified_candidates(name, path).len() ==> is_root_anchored(
                #[trigger] fully_qualified_candidates(name, path)[i],
            ),
{
    lemma_module_nesting(path);
}

/// Computes the scopes in which a constant is searched at a place that
/// `namespace_nesting` encloses: for `[Foo, Bar, Baz]` these are
/// `[Foo::Bar::Baz, Foo::Bar, Foo]`. A namespace behind namespaces that add
/// up to nothing stands alone: for an empty name and `A` they are `A` and
/// the empty scope.
pub fn calculate_module_nesting(namespace_nesting: &Vec<String>) -> (nesting: Vec<String>)
    ensures
        strings_view(nesting@) == module_nesting(strings_view(namespace_nesting@)),
{
    let ghost path = strings_view(namespace_nesting@);
    let mut nesting: Vec<String> = Vec::new();
    let mut previous = String::new();
    let mut i: usize = 0;
    while i < namespace_nesting.len()
        invariant
            i <= namespace_nesting.len(),
            path == strings_view(namespace_nesting@),
            previous@ == accumulated(path.subrange(0, i as int)),
            strings_view(nesting@) == module_nesting(path.subrange(0, i as int)),
        decreases namespace_nesting.len() - i,
    {
        let namespace = &namespace_nesting[i];
        let ghost shorter = path.subrange(0, i as int);
        let ghost longer = path.subrange(0, i + 1);
        proof {
            assert(longer.drop_last() =~= shorter);
            assert(longer.last() == namespace@);
        }
        let new_nesting = if previous.as_str().is_empty() {
            namespace.clone()
        } else {
            qualify(previous.as_str(), namespace.as_str())
        };
        assert(new_nesting@ == accumulated(longer));
        previous = new_nesting.clone();
        let ghost old_nesting = nesting@;
        nesting.insert(0, new_nesting);
        proof {
            assert(strings_view(old_nesting).len() == shorter.len());
            assert(old_nesting.len() == i);
            assert(nesting@.len() == i + 1);
            assert(longer.len() == i + 1);
            assert(path.len() == namespace_nesting@.len());
            assert forall|k: int| 0 <= k < longer.len() implies #[trigger] strings_view(
                nesting@,
            )[k] == module_nesting(longer)[k] by {
                if k == 0 {
                    assert(longer.subrange(0, longer.len() - 0) =~= longer);
                } else {
                    assert(nesting@[k] == old_nesting[k - 1]);
                    assert(strings_view(old_nesting)[k - 1] == module_nesting(shorter)[k - 1]);
                    assert(shorter.subrange(0, shorter.len() - (k - 1)) =~= longer.subrange(
                        0,
                        longer.len() - k,
                    ));
                }
            }
            assert(strings_view(nesting@) =~= module_nesting(longer));
        }
        i += 1;
    }
    proof {
        assert(path.subrange(0, path.len() as int) =~= path);
    }
    nesting
}

impl Reference {
    /// The names under which this reference may be defined, in the order in
    /// which they are tried.
    pub fn possible_fully_qualified_constants(&self) -> (possible_constants: Vec<String>)
        ensures
            strings_view(possible_constants@) == fully_qualified_candidates(
                self@.name,
                self@.namespace_path,
            ),
    {
        let mut possible_constants: Vec<String> = Vec::new();
        possible_constants.push(self.name.clone());
        proof {
            assert(strings_view(possible_constants@) =~= seq![self@.name]);
        }
        if starts_with_scope_separator(self.name.as_str()) {
            return possible_constants;
        }
        let module_nesting = calculate_module_nesting(&self.namespace_path);
        let ghost scopes = strings_view(module_nesting@);
        let ghost name = self@.name;
        let mut i: usize = 0;
        while i < module_nesting.len()
            invariant
                i <= module_nesting.len(),
                scopes == strings_view(module_nesting@),
                name == self.name@,
                strings_view(possible_constants@) == seq![name] + scopes.subrange(
                    0,
                    i as int,
                ).map_values(|scope: Seq<char>| qualified(root_anchored(scope), name)),
            decreases module_nesting.len() - i,
        {
            let anchored = root_anchor(module_nesting[i].as_str());
            let possible_constant = qualify(anchored.as_str(), self.name.as_str());
            let ghost before = possible_constants@;
            possible_constants.push(possible_constant);
            proof {
                lemma_strings_view_push(before, possible_constants@.last());
                assert(scopes.subrange(0, i + 1) =~= scopes.subrange(0, i as int).push(
                    scopes[i as int],
                ));
                assert(strings_view(possible_constants@) =~= seq![name] + scopes.subrange(
                    0,
                    i + 1,
                ).map_values(|scope: Seq<char>| qualified(root_anchored(scope), name)));
            }
            i += 1;
        }
        proof {
            assert(scopes.subrange(0, scopes.len() as int) =~= scopes);
        }
        possible_constants
    }
}

} // verus!
