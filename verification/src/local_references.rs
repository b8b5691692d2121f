//! References to what the same file defines: they are no dependencies on
//! other code, and are taken off the list of a file's references.

use crate::references::{
    definitions_view, fully_qualified_candidates, references_view, Definition, DefinitionView,
    Reference, ReferenceView,
};
use crate::span::Range;
use crate::text::{is_root_anchored, root_anchor, root_anchored, strings_view};
use vstd::hash_map::StringHashMap;
use vstd::prelude::*;

verus! {

/// The place of each name that `definitions` define. Where a name is defined
/// more than once, the last definition counts.
pub open spec fn location_map(definitions: Seq<DefinitionView>) -> Map<Seq<char>, Range>
    decreases definitions.len(),
{
    if definitions.len() == 0 {
        Map::empty()
    } else {
        location_map(definitions.drop_last()).insert(
            definitions.last().fully_qualified_name,
            definitions.last().location,
        )
    }
}

/// The place of the definition that `candidate` finds in `locations`: that
/// of the name itself, or else that of the name anchored at the root.
pub open spec fn local_definition(
    locations: Map<Seq<char>, Range>,
    candidate: Seq<char>,
) -> Option<Range> {
    if locations.contains_key(candidate) {
        Some(locations[candidate])
    } else if locations.contains_key(root_anchored(candidate)) {
        Some(locations[root_anchored(candidate)])
    } else {
        None
    }
}

/// The place of the definition that the first `count` of `candidates` find
/// in `locations`: where several candidates find one, the last of them
/// counts.
pub open spec fn last_local_definition(
    locations: Map<Seq<char>, Range>,
    candidates: Seq<Seq<char>>,
    count: nat,
) -> Option<Range>
    decreases count,
{
    if count == 0 || count > candidates.len() {
        None
    } else {
        match local_definition(locations, candidates[count - 1]) {
            Some(location) => Some(location),
            None => last_local_definition(locations, candidates, (count - 1) as nat),
        }
    }
}

/// The place of the definition in the same file that `reference` resolves
/// to, if it resolves to one.
pub open spec fn resolved_locally(
    locations: Map<Seq<char>, Range>,
    reference: ReferenceView,
) -> Option<Range> {
    let candidates = fully_qualified_candidates(reference.name, reference.namespace_path);
    last_local_definition(locations, candidates, candidates.len())
}

/// `true` when `reference` resolves to a definition of the same file that
/// stands at another place. A reference that stands where its definition
/// stands is the declaration itself and is not local in this sense.
pub open spec fn is_local_reference(locations: Map<Seq<char>, Range>, reference: ReferenceView) -> bool {
    match resolved_locally(locations, reference) {
        Some(location) => location != reference.location,
        None => false,
    }
}

/// `references` without those that are local, in their order.
pub open spec fn without_local_references(
    references: Seq<ReferenceView>,
    locations: Map<Seq<char>, Range>,
) -> Seq<ReferenceView>
    decreases references.len(),
{
    if references.len() == 0 {
        Seq::empty()
    } else if is_local_reference(locations, references.last()) {
        without_local_references(references.drop_last(), locations)
    } else {
        without_local_references(references.drop_last(), locations).push(references.last())
    }
}

/// The map of a list of definitions knows the name of each of them, and
/// gives for a name the place of the last definition of that name.
pub proof fn lemma_location_map_finds_last(definitions: Seq<DefinitionView>, i: int)
    requires
        0 <= i < definitions.len(),
        forall|j: int|
            i < j < definitions.len() && #[trigger] definitions[j].fully_qualified_name
                == definitions[i].fully_qualified_name ==> definitions[j].location
                == definitions[i].location,
    ensures
        location_map(definitions).contains_key(definitions[i].fully_qualified_name),
        location_map(definitions)[definitions[i].fully_qualified_name] == definitions[i].location,
    decreases definitions.len(),
{
    if i < definitions.len() - 1 {
        let shorter = definitions.drop_last();
        assert forall|j: int|
            i < j < shorter.len() && #[trigger] shorter[j].fully_qualified_name
                == shorter[i].fully_qualified_name implies shorter[j].location
            == shorter[i].location by {
            assert(shorter[j] == definitions[j]);
        }
        lemma_location_map_finds_last(shorter, i);
        assert(definitions[definitions.len() - 1] == definitions.last());
    }
}

/// What is left after the local references are taken off is exactly what
/// was there and is not local.
pub proof fn lemma_without_local_references(
    references: Seq<ReferenceView>,
    locations: Map<Seq<char>, Range>,
    reference: ReferenceView,
)
    ensures
        without_local_references(references, locations).contains(reference) <==> (
        references.contains(reference) && !is_local_reference(locations, reference)),
    decreases references.len(),
{
    if references.len() > 0 {
        let shorter = references.drop_last();
        let last = references.last();
        let kept = without_local_references(shorter, locations);
        lemma_without_local_references(shorter, locations, reference);
        if references.contains(reference) {
            let k = choose|k: int| 0 <= k < references.len() && references[k] == reference;
            if k < references.len() - 1 {
                assert(shorter[k] == reference);
            }
        }
        if shorter.contains(reference) {
            let k = choose|k: int| 0 <= k < shorter.len() && shorter[k] == reference;
            assert(references[k] == reference);
        }
        assert(references[references.len() - 1] == last);
        if !is_local_reference(locations, last) {
            let longer = kept.push(last);
            assert(longer[kept.len() as int] == last);
            if kept.contains(reference) {
                let k = choose|k: int| 0 <= k < kept.len() && kept[k] == reference;
                assert(longer[k] == reference);
            }
            if longer.contains(reference) {
                let k = choose|k: int| 0 <= k < longer.len() && longer[k] == reference;
                if k < kept.len() {
                    assert(kept[k] == reference);
                }
            }
        }
    }
}

/// The positions in `references` of those that are not local, in rising
/// order.
pub open spec fn kept_positions(
    references: Seq<ReferenceView>,
    locations: Map<Seq<char>, Range>,
) -> Seq<int>
    decreases references.len(),
{
    if references.len() == 0 {
        Seq::empty()
    } else if is_local_reference(locations, references.last()) {
        kept_positions(references.drop_last(), locations)
    } else {
        kept_positions(references.drop_last(), locations).push(references.len() - 1)
    }
}

/// Taking the local references off a list leaves the others as they were
/// and in their order: what is left is, element by element, what stands in
/// the list at the kept positions; the kept positions rise strictly; and
/// they are the positions of all references that are not local. Nothing is
/// added and nothing is changed.
pub proof fn lemma_kept_in_order(references: Seq<ReferenceView>, locations: Map<Seq<char>, Range>)
    ensures
        kept_positions(references, locations).len() == without_local_references(
            references,
            locations,
        ).len(),
        forall|k: int|
            0 <= k < kept_positions(references, locations).len() ==> {
                let position = #[trigger] kept_positions(references, locations)[k];
                &&& 0 <= position < references.len()
                &&& without_local_references(references, locations)[k] == references[position]
                &&& !is_local_reference(locations, references[position])
            },
        forall|j: int, k: int|
            0 <= j < k < kept_positions(references, locations).len() ==> kept_positions(
                references,
                locations,
            )[j] < kept_positions(references, locations)[k],
        forall|i: int|
            0 <= i < references.len() && !is_local_reference(locations, #[trigger] references[i])
                ==> kept_positions(references, locations).contains(i),
    decreases references.len(),
{
    if references.len() > 0 {
        let shorter = references.drop_last();
        let last = references.last();
        lemma_kept_in_order(shorter, locations);
        let before = kept_positions(shorter, locations);
        let positions = kept_positions(references, locations);
        let kept = without_local_references(references, locations);
        assert(references[references.len() - 1] == last);
        assert forall|k: int| 0 <= k < positions.len() implies {
            let position = #[trigger] positions[k];
            &&& 0 <= position < references.len()
            &&& kept[k] == references[position]
            &&& !is_local_reference(locations, references[position])
        } by {
            if k < before.len() {
                assert(positions[k] == before[k]);
                assert(shorter[before[k]] == references[before[k]]);
            }
        }
        assert forall|j: int, k: int| 0 <= j < k < positions.len() implies positions[j]
            < positions[k] by {
            assert(positions[j] == before[j]);
            if k < before.len() {
                assert(positions[k] == before[k]);
            }
        }
        assert forall|i: int|
            0 <= i < references.len() && !is_local_reference(
                locations,
                #[trigger] references[i],
            ) implies positions.contains(i) by {
            if i < shorter.len() {
                assert(shorter[i] == references[i]);
                let k = choose|k: int| 0 <= k < before.len() && before[k] == i;
                assert(positions[k] == i);
            } else {
                assert(positions[positions.len() - 1] == i);
            }
        }
    }
}

/// A declaration is never taken for a local reference to itself: the
/// reference that a definition makes to its own name, at its own place,
/// stays on the list. This holds of a definition whose name is anchored at
/// the root and is not defined again, at another place, further down the
/// same file.
pub proof fn lemma_declaration_is_kept(
    references: Seq<ReferenceView>,
    definitions: Seq<DefinitionView>,
    k: int,
    i: int,
)
    requires
        0 <= k < references.len(),
        0 <= i < definitions.len(),
        references[k].name == definitions[i].fully_qualified_name,
        references[k].location == definitions[i].location,
        is_root_anchored(definitions[i].fully_qualified_name),
        forall|j: int|
            i < j < definitions.len() && #[trigger] definitions[j].fully_qualified_name
                == definitions[i].fully_qualified_name ==> definitions[j].location
                == definitions[i].location,
    ensures
        !is_local_reference(location_map(definitions), references[k]),
        without_local_references(references, location_map(definitions)).contains(references[k]),
{
    let locations = location_map(definitions);
    let reference = references[k];
    lemma_location_map_finds_last(definitions, i);
    let candidates = fully_qualified_candidates(reference.name, reference.namespace_path);
    assert(candidates =~= seq![reference.name]);
    assert(last_local_definition(locations, candidates, 0) is None);
    assert(last_local_definition(locations, candidates, 1) == Some(reference.location));
    lemma_without_local_references(references, locations, reference);
}

/// Any other reference that resolves to a definition of the same file is
/// taken off the list: one that stands at another place than the definition
/// it resolves to.
pub proof fn lemma_local_reference_is_removed(
    references: Seq<ReferenceView>,
    definitions: Seq<DefinitionView>,
    k: int,
    i: int,
)
    requires
        0 <= k < references.len(),
        0 <= i < definitions.len(),
        resolved_locally(location_map(definitions), references[k]) == Some(
            definitions[i].location,
        ),
        references[k].location != definitions[i].location,
    ensures
        is_local_reference(location_map(definitions), references[k]),
        !without_local_references(references, location_map(definitions)).contains(
            references[k],
        ),
{
    lemma_without_local_references(references, location_map(definitions), references[k]);
}

/// Builds the map from each defined name to the place of its definition.
pub fn definition_locations(definitions: &Vec<Definition>) -> (locations: StringHashMap<Range>)
    ensures
        locations@ == location_map(definitions_view(definitions@)),
{
    let ghost all = definitions_view(definitions@);
    let mut locations: StringHashMap<Range> = StringHashMap::new();
    let mut i: usize = 0;
    while i < definitions.len()
        invariant
            i <= definitions.len(),
            all == definitions_view(definitions@),
            locations@ == location_map(all.subrange(0, i as int)),
        decreases definitions.len() - i,
    {
        proof {
            assert(all.subrange(0, i + 1).drop_last() =~= all.subrange(0, i as int));
        }
        let d = &definitions[i];
        locations.insert(d.fully_qualified_name.clone(), d.location);
        i += 1;
    }
    proof {
        assert(all.subrange(0, all.len() as int) =~= all);
    }
    locations
}

/// Looks up the place of the definition that `candidate` finds.
pub fn find_local_definition(locations: &StringHashMap<Range>, candidate: &str) -> (found: Option<
    Range,
>)
    ensures
        found == local_definition(locations@, candidate@),
{
    match locations.get(candidate) {
        Some(location) => Some(*location),
        None => {
            let anchored = root_anchor(candidate);
            match locations.get(anchored.as_str()) {
                Some(location) => Some(*location),
                None => None,
            }
        },
    }
}

/// Decides whether `reference` resolves to a definition of the same file
/// that stands at another place.
pub fn should_ignore_local_reference(
    locations: &StringHashMap<Range>,
    reference: &Reference,
) -> (ignore: bool)
    ensures
        ignore == is_local_reference(locations@, reference@),
{
    let possible_constants = reference.possible_fully_qualified_constants();
    let ghost candidates = strings_view(possible_constants@);
    let mut found: Option<Range> = None;
    let mut i: usize = 0;
    while i < possible_constants.len()
        invariant
            i <= possible_constants.len(),
            candidates == strings_view(possible_constants@),
            found == last_local_definition(locations@, candidates, i as nat),
        decreases possible_constants.len() - i,
    {
        match find_local_definition(locations, possible_constants[i].as_str()) {
            Some(location) => {
                found = Some(location);
            },
            None => {},
        }
        i += 1;
    }
    match found {
        Some(location) => location != reference.location,
        None => false,
    }
}

/// Takes the references to local definitions off `references`.
pub fn remove_local_references(
    references: &Vec<Reference>,
    definitions: &Vec<Definition>,
) -> (kept: Vec<Reference>)
    ensures
        references_view(kept@) == without_local_references(
            references_view(references@),
            location_map(definitions_view(definitions@)),
        ),
{
    let definition_to_location_map = definition_locations(definitions);
    let ghost all = references_view(references@);
    let mut kept: Vec<Reference> = Vec::new();
    let mut i: usize = 0;
    while i < references.len()
        invariant
            i <= references.len(),
            all == references_view(references@),
            references_view(kept@) == without_local_references(
                all.subrange(0, i as int),
                definition_to_location_map@,
            ),
        decreases references.len() - i,
    {
        proof {
            assert(all.subrange(0, i + 1).drop_last() =~= all.subrange(0, i as int));
        }
        if !should_ignore_local_reference(&definition_to_location_map, &references[i]) {
            let copy = references[i].clone();
            proof {
                assert(references_view(kept@.push(copy)) =~= references_view(kept@).push(copy@));
            }
            kept.push(copy);
        }
        i += 1;
    }
    proof {
        assert(all.subrange(0, all.len() as int) =~= all);
    }
    kept
}

} // verus!
