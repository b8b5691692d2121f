//! References that a model states through its associations: `has_one`,
//! `has_many`, `belongs_to` and `has_and_belongs_to_many` name another class
//! without spelling out its constant.

use crate::nodes::{Node, Send};
use crate::references::{lemma_references_view_push, references_view, Reference, ReferenceView};
use crate::span::{loc_to_range, range_of, Range, SourceIndex};
use crate::text::{clone_strings, lemma_strings_view_push, same_text, strings_view};
use inflector::cases::classcase::to_class_case;
use vstd::prelude::*;

verus! {

/// The class-case form that `inflector` gives a text: the words of the text
/// run together, each with a capital first letter, and the last word in the
/// singular.
pub uninterp spec fn class_case(text: Seq<char>) -> Seq<char>;

/// Converts `text` with `inflector::cases::classcase::to_class_case`.
/// Trusted: the result depends on the characters of `text` alone.
#[verifier::external_body]
fn class_case_of(text: &str) -> (converted: String)
    ensures
        converted@ == class_case(text@),
{
    to_class_case(text)
}

/// `true` for the names of the methods that declare an association.
pub open spec fn is_association_method(method_name: Seq<char>) -> bool {
    ||| method_name == "has_one"@
    ||| method_name == "has_many"@
    ||| method_name == "belongs_to"@
    ||| method_name == "has_and_belongs_to_many"@
}

/// The class that the keyword argument `pair` names: the string that is
/// given for the key `class_name`, if `pair` is such an entry.
pub open spec fn pair_class_name(pair: Node) -> Option<Seq<char>> {
    match pair {
        Node::Pair(entry) => match (*entry.key, *entry.value) {
            (Node::Sym(key), Node::Str(value)) => if key.name@ == "class_name"@ {
                Some(value.value@)
            } else {
                None
            },
            _ => None,
        },
        _ => None,
    }
}

/// The classes that the `class_name` entries among the first `count` of
/// `pairs` name, in the order of the entries.
pub open spec fn explicit_class_names(pairs: Seq<Node>, count: nat) -> Seq<Seq<char>>
    decreases count,
{
    if count == 0 || count > pairs.len() {
        Seq::empty()
    } else {
        let before = explicit_class_names(pairs, (count - 1) as nat);
        match pair_class_name(pairs[count - 1]) {
            Some(name) => before.push(name),
            None => before,
        }
    }
}

/// The classes that the keyword arguments of a call name: those of the
/// `class_name` entries of the second argument, where that argument holds
/// keyword arguments.
pub open spec fn keyword_class_names(args: Seq<Node>) -> Seq<Seq<char>> {
    if args.len() >= 2 {
        match args[1] {
            Node::Kwargs(kwargs) => explicit_class_names(kwargs.pairs@, kwargs.pairs@.len()),
            _ => Seq::empty(),
        }
    } else {
        Seq::empty()
    }
}

/// The classes that the call `node` refers to as an association. Each string
/// given as `class_name` is taken as it stands. Without any, the first
/// argument, if it is a literal symbol, is put in class case. Any other call
/// refers to none.
pub open spec fn association_targets(node: Send) -> Seq<Seq<char>> {
    if !is_association_method(node.method_name@) {
        Seq::empty()
    } else if keyword_class_names(node.args@).len() > 0 {
        keyword_class_names(node.args@)
    } else if node.args@.len() >= 1 {
        match node.args@[0] {
            Node::Sym(symbol) => seq![class_case(symbol.name@)],
            _ => Seq::empty(),
        }
    } else {
        Seq::empty()
    }
}

/// The references to `names` from inside `namespaces` at `location`.
pub open spec fn references_to(
    names: Seq<Seq<char>>,
    namespaces: Seq<Seq<char>>,
    location: Range,
) -> Seq<ReferenceView> {
    names.map_values(
        |name: Seq<char>| ReferenceView { name, namespace_path: namespaces, location },
    )
}

/// The references that the call `node` makes as an association from inside
/// `namespaces`: one to each class it names, at the place of the whole call.
pub open spec fn association_references(
    text: Seq<u8>,
    node: Send,
    namespaces: Seq<Seq<char>>,
) -> Seq<ReferenceView> {
    references_to(association_targets(node), namespaces, range_of(text, node.expression_l))
}

/// The value of an optional string.
pub open spec fn optional_text_view(text: Option<String>) -> Option<Seq<char>> {
    match text {
        Some(text) => Some(text@),
        None => None,
    }
}

fn is_association_method_name(method_name: &str) -> (found: bool)
    ensures
        found == is_association_method(method_name@),
{
    same_text(method_name, "has_one") || same_text(method_name, "has_many") || same_text(
        method_name,
        "belongs_to",
    ) || same_text(method_name, "has_and_belongs_to_many")
}

fn class_name_of_pair(pair: &Node) -> (name: Option<String>)
    ensures
        optional_text_view(name) == pair_class_name(*pair),
{
    if let Node::Pair(entry) = pair {
        if let Node::Sym(key) = &*entry.key {
            if let Node::Str(value) = &*entry.value {
                if same_text(key.name.as_str(), "class_name") {
                    return Some(value.value.clone());
                }
            }
        }
    }
    None
}

fn class_names_of_keywords(args: &Vec<Node>) -> (names: Vec<String>)
    ensures
        strings_view(names@) == keyword_class_names(args@),
{
    let mut names: Vec<String> = Vec::new();
    proof {
        assert(strings_view(names@) =~= Seq::empty());
    }
    if args.len() < 2 {
        return names;
    }
    if let Node::Kwargs(kwargs) = &args[1] {
        let mut i: usize = 0;
        while i < kwargs.pairs.len()
            invariant
                i <= kwargs.pairs.len(),
                strings_view(names@) == explicit_class_names(kwargs.pairs@, i as nat),
            decreases kwargs.pairs.len() - i,
        {
            match class_name_of_pair(&kwargs.pairs[i]) {
                Some(name) => {
                    proof {
                        lemma_strings_view_push(names@, name);
                    }
                    names.push(name);
                },
                None => {},
            }
            i += 1;
        }
    }
    names
}

/// Makes the reference to `name` from inside `current_namespaces` at
/// `location`.
pub fn reference_to(
    name: String,
    current_namespaces: &Vec<String>,
    location: Range,
) -> (reference: Reference)
    ensures
        reference@ == (ReferenceView {
            name: name@,
            namespace_path: strings_view(current_namespaces@),
            location,
        }),
{
    Reference { name, namespace_path: clone_strings(current_namespaces), location }
}

/// Names the classes that the call `node` refers to as an association.
pub fn association_class_names(node: &Send) -> (names: Vec<String>)
    ensures
        strings_view(names@) == association_targets(*node),
{
    let mut names: Vec<String> = Vec::new();
    proof {
        assert(strings_view(names@) =~= Seq::empty());
    }
    if !is_association_method_name(node.method_name.as_str()) {
        return names;
    }
    let explicit = class_names_of_keywords(&node.args);
    if explicit.len() > 0 {
        return explicit;
    }
    if node.args.len() >= 1 {
        if let Node::Sym(symbol) = &node.args[0] {
            let name = class_case_of(symbol.name.as_str());
            proof {
                lemma_strings_view_push(names@, name);
                assert(Seq::<Seq<char>>::empty().push(name@) =~= seq![name@]);
            }
            names.push(name);
        }
    }
    names
}

/// Reads the references that a call makes as an association.
pub fn get_references_from_active_record_association(
    node: &Send,
    current_namespaces: &Vec<String>,
    line_col_lookup: &SourceIndex,
) -> (references: Vec<Reference>)
    ensures
        references_view(references@) == association_references(
            line_col_lookup.bytes(),
            *node,
            strings_view(current_namespaces@),
        ),
{
    let names = association_class_names(node);
    let location = loc_to_range(node.expression_l, line_col_lookup);
    let ghost targets = strings_view(names@);
    let ghost namespaces = strings_view(current_namespaces@);
    let mut references: Vec<Reference> = Vec::new();
    proof {
        assert(references_view(references@) =~= references_to(
            targets.subrange(0, 0),
            namespaces,
            location,
        ));
    }
    let mut i: usize = 0;
    while i < names.len()
        invariant
            i <= names.len(),
            targets == strings_view(names@),
            namespaces == strings_view(current_namespaces@),
            references_view(references@) == references_to(
                targets.subrange(0, i as int),
                namespaces,
                location,
            ),
        decreases names.len() - i,
    {
        let reference = reference_to(names[i].clone(), current_namespaces, location);
        proof {
            lemma_references_view_push(references@, reference);
            assert(targets.subrange(0, i + 1) =~= targets.subrange(0, i as int).push(
                targets[i as int],
            ));
            assert(references_to(targets.subrange(0, i as int).push(targets[i as int]), namespaces, location)
                =~= references_to(targets.subrange(0, i as int), namespaces, location).push(
                reference@,
            ));
        }
        references.push(reference);
        i += 1;
    }
    proof {
        assert(targets.subrange(0, targets.len() as int) =~= targets);
    }
    references
}

} // verus!
