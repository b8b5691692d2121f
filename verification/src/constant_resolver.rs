//! Resolution of references: which file defines the constant that a
//! reference names. A resolver is a snapshot of the constants that are known
//! and is never changed once it is built.

use crate::processed_file::{ProcessedFile, ProcessedFileView};
use crate::references::{fully_qualified_candidates, DefinitionView, Reference, ReferenceView};
use crate::text::{clone_strings, root_anchor, root_anchored, strings_view};
use vstd::hash_map::StringHashMap;
use vstd::prelude::*;

verus! {

/// A constant that is known: its name from the global root, the absolute
/// path of the file that defines it, and the namespaces that enclose the
/// definition.
#[derive(Debug, PartialEq, Eq)]
pub struct Constant {
    pub fully_qualified_name: String,
    pub absolute_path_of_definition: String,
    pub namespace_path: Vec<String>,
}

/// The value of a `Constant`.
pub struct ConstantView {
    pub fully_qualified_name: Seq<char>,
    pub absolute_path_of_definition: Seq<char>,
    pub namespace_path: Seq<Seq<char>>,
}

impl View for Constant {
    type V = ConstantView;

    open spec fn view(&self) -> ConstantView {
        ConstantView {
            fully_qualified_name: self.fully_qualified_name@,
            absolute_path_of_definition: self.absolute_path_of_definition@,
            namespace_path: strings_view(self.namespace_path@),
        }
    }
}

impl Clone for Constant {
    fn clone(&self) -> (copy: Constant)
        ensures
            copy@ == self@,
    {
        Constant {
            fully_qualified_name: self.fully_qualified_name.clone(),
            absolute_path_of_definition: self.absolute_path_of_definition.clone(),
            namespace_path: clone_strings(&self.namespace_path),
        }
    }
}

/// The values of a list of constants.
pub open spec fn constants_view(constants: Seq<Constant>) -> Seq<ConstantView> {
    constants.map_values(|c: Constant| c@)
}

/// The value of an optional constant.
pub open spec fn optional_constant_view(constant: Option<Constant>) -> Option<ConstantView> {
    match constant {
        Some(constant) => Some(constant@),
        None => None,
    }
}

/// The constants of a list by name. Where a name occurs more than once, the
/// last constant of that name counts.
pub open spec fn constant_map(constants: Seq<ConstantView>) -> Map<Seq<char>, ConstantView>
    decreases constants.len(),
{
    if constants.len() == 0 {
        Map::empty()
    } else {
        constant_map(constants.drop_last()).insert(
            constants.last().fully_qualified_name,
            constants.last(),
        )
    }
}

/// The constant that `candidate` finds among `constants`: the one of that
/// name or else, where `or_root_anchored` is set, the one whose name is
/// `candidate` anchored at the root.
pub open spec fn probe(
    constants: Map<Seq<char>, ConstantView>,
    or_root_anchored: bool,
    candidate: Seq<char>,
) -> Option<ConstantView> {
    if constants.contains_key(candidate) {
        Some(constants[candidate])
    } else if or_root_anchored && constants.contains_key(root_anchored(candidate)) {
        Some(constants[root_anchored(candidate)])
    } else {
        None
    }
}

/// The constant that the first of `candidates[from..]` to find one finds.
pub open spec fn first_match(
    constants: Map<Seq<char>, ConstantView>,
    or_root_anchored: bool,
    candidates: Seq<Seq<char>>,
    from: int,
) -> Option<ConstantView>
    decreases candidates.len() - from,
{
    if from < 0 || from >= candidates.len() {
        None
    } else {
        match probe(constants, or_root_anchored, candidates[from]) {
            Some(constant) => Some(constant),
            None => first_match(constants, or_root_anchored, candidates, from + 1),
        }
    }
}

/// The constant that `reference` resolves to: its candidates are tried in
/// their order, and the first that finds a constant decides.
pub open spec fn resolution(
    constants: Map<Seq<char>, ConstantView>,
    or_root_anchored: bool,
    reference: ReferenceView,
) -> Option<ConstantView> {
    first_match(
        constants,
        or_root_anchored,
        fully_qualified_candidates(reference.name, reference.namespace_path),
        0,
    )
}

/// A reference resolves to nothing where none of its candidates finds a
/// constant: there is no match that no candidate accounts for.
pub proof fn lemma_unknown_reference_is_unresolved(
    constants: Map<Seq<char>, ConstantView>,
    or_root_anchored: bool,
    reference: ReferenceView,
)
    requires
        forall|i: int|
            0 <= i < fully_qualified_candidates(
                reference.name,
                reference.namespace_path,
            ).len() ==> probe(
                constants,
                or_root_anchored,
                #[trigger] fully_qualified_candidates(
                    reference.name,
                    reference.namespace_path,
                )[i],
            ) is None,
    ensures
        resolution(constants, or_root_anchored, reference) is None,
{
    lemma_first_match(
        constants,
        or_root_anchored,
        fully_qualified_candidates(reference.name, reference.namespace_path),
        0,
    );
}

/// Where no name is looked up in a second form, a reference none of whose
/// candidates is the name of a known constant resolves to nothing.
pub proof fn lemma_absent_candidates_are_unresolved(
    constants: Map<Seq<char>, ConstantView>,
    reference: ReferenceView,
)
    requires
        forall|i: int|
            0 <= i < fully_qualified_candidates(
                reference.name,
                reference.namespace_path,
            ).len() ==> !constants.contains_key(
                #[trigger] fully_qualified_candidates(
                    reference.name,
                    reference.namespace_path,
                )[i],
            ),
    ensures
        resolution(constants, false, reference) is None,
{
    lemma_unknown_reference_is_unresolved(constants, false, reference);
}

/// What `first_match` finds is what one of the candidates finds, and no
/// candidate before that one finds anything; it finds nothing exactly where
/// no candidate does.
pub proof fn lemma_first_match(
    constants: Map<Seq<char>, ConstantView>,
    or_root_anchored: bool,
    candidates: Seq<Seq<char>>,
    from: int,
)
    requires
        0 <= from,
    ensures
        match first_match(constants, or_root_anchored, candidates, from) {
            Some(constant) => exists|i: int|
                from <= i < candidates.len() && #[trigger] probe(
                    constants,
                    or_root_anchored,
                    candidates[i],
                ) == Some(constant) && forall|j: int|
                    from <= j < i ==> #[trigger] probe(constants, or_root_anchored, candidates[j])
                        is None,
            None => forall|i: int|
                from <= i < candidates.len() ==> #[trigger] probe(
                    constants,
                    or_root_anchored,
                    candidates[i],
                ) is None,
        },
    decreases candidates.len() - from,
{
    if from < candidates.len() {
        match probe(constants, or_root_anchored, candidates[from]) {
            Some(constant) => {},
            None => {
                lemma_first_match(constants, or_root_anchored, candidates, from + 1);
                match first_match(constants, or_root_anchored, candidates, from + 1) {
                    Some(constant) => {
                        let i = choose|i: int|
                            from + 1 <= i < candidates.len() && #[trigger] probe(
                                constants,
                                or_root_anchored,
                                candidates[i],
                            ) == Some(constant) && forall|j: int|
                                from + 1 <= j < i ==> #[trigger] probe(
                                    constants,
                                    or_root_anchored,
                                    candidates[j],
                                ) is None;
                        assert forall|j: int| from <= j < i implies #[trigger] probe(
                            constants,
                            or_root_anchored,
                            candidates[j],
                        ) is None by {
                            if j > from {
                            }
                        }
                    },
                    None => {
                        assert forall|i: int| from <= i < candidates.len() implies #[trigger] probe(
                            constants,
                            or_root_anchored,
                            candidates[i],
                        ) is None by {
                            if i > from {
                            }
                        }
                    },
                }
            },
        }
    }
}

/// Every constant of a map that was made from a list stands under its own
/// name and comes from the list.
pub proof fn lemma_constant_map(constants: Seq<ConstantView>, name: Seq<char>)
    ensures
        constant_map(constants).contains_key(name) ==> constant_map(
            constants,
        )[name].fully_qualified_name == name && constants.contains(constant_map(constants)[name]),
        constant_map(constants).contains_key(name) <==> exists|i: int|
            0 <= i < constants.len() && #[trigger] constants[i].fully_qualified_name == name,
    decreases constants.len(),
{
    if constants.len() > 0 {
        let shorter = constants.drop_last();
        lemma_constant_map(shorter, name);
        assert(constants[constants.len() - 1] == constants.last());
        if constant_map(shorter).contains_key(name) {
            let i = choose|i: int|
                0 <= i < shorter.len() && #[trigger] shorter[i].fully_qualified_name == name;
            assert(constants[i] == shorter[i]);
            if constants.last().fully_qualified_name != name {
                let found = constant_map(shorter)[name];
                let k = choose|k: int| 0 <= k < shorter.len() && shorter[k] == found;
                assert(constants[k] == found);
            }
        }
        if exists|i: int|
            0 <= i < constants.len() && #[trigger] constants[i].fully_qualified_name == name {
            let i = choose|i: int|
                0 <= i < constants.len() && #[trigger] constants[i].fully_qualified_name == name;
            if i < shorter.len() {
                assert(shorter[i] == constants[i]);
            }
        }
    }
}

/// A snapshot of the constants that are known, by name.
pub struct ConstantResolver {
    fully_qualified_constant_to_constant_map: StringHashMap<Constant>,
    probes_root_anchored_names: bool,
}

impl ConstantResolver {
    /// The constants that the resolver knows, by name.
    pub closed spec fn constants(&self) -> Map<Seq<char>, ConstantView> {
        self.fully_qualified_constant_to_constant_map@.map_values(|c: Constant| c@)
    }

    /// Whether a candidate that is not known by its own name is looked up
    /// once more, anchored at the root.
    pub closed spec fn probes_root_anchored_names(&self) -> bool {
        self.probes_root_anchored_names
    }

    /// Builds the resolver that knows `constants`.
    pub fn new(
        constants: &Vec<Constant>,
        probes_root_anchored_names: bool,
    ) -> (resolver: ConstantResolver)
        ensures
            resolver.constants() == constant_map(constants_view(constants@)),
            resolver.probes_root_anchored_names() == probes_root_anchored_names,
    {
        let ghost all = constants_view(constants@);
        let mut map: StringHashMap<Constant> = StringHashMap::new();
        proof {
            assert(map@.map_values(|c: Constant| c@) =~= constant_map(all.subrange(0, 0)));
        }
        let mut i: usize = 0;
        while i < constants.len()
            invariant
                i <= constants.len(),
                all == constants_view(constants@),
                map@.map_values(|c: Constant| c@) == constant_map(all.subrange(0, i as int)),
            decreases constants.len() - i,
        {
            let ghost before = map@;
            let constant = constants[i].clone();
            let name = constant.fully_qualified_name.clone();
            map.insert(name, constant);
            proof {
                assert(all.subrange(0, i + 1).drop_last() =~= all.subrange(0, i as int));
                assert(all.subrange(0, i + 1).last() == constant@);
                assert(map@.map_values(|c: Constant| c@) =~= before.map_values(
                    |c: Constant| c@,
                ).insert(constant@.fully_qualified_name, constant@));
            }
            i += 1;
        }
        proof {
            assert(all.subrange(0, all.len() as int) =~= all);
        }
        ConstantResolver { fully_qualified_constant_to_constant_map: map, probes_root_anchored_names }
    }

    /// Looks up one candidate.
    fn constant_for(&self, candidate: &str) -> (found: Option<Constant>)
        ensures
            optional_constant_view(found) == probe(
                self.constants(),
                self.probes_root_anchored_names(),
                candidate@,
            ),
    {
        match self.fully_qualified_constant_to_constant_map.get(candidate) {
            Some(constant) => Some(constant.clone()),
            None => {
                if self.probes_root_anchored_names {
                    let anchored = root_anchor(candidate);
                    match self.fully_qualified_constant_to_constant_map.get(anchored.as_str()) {
                        Some(constant) => Some(constant.clone()),
                        None => None,
                    }
                } else {
                    None
                }
            },
        }
    }

    /// Resolves `reference`: returns the constant that the first of its
    /// candidates to find one finds, and nothing where none finds any.
    pub fn resolve(&self, reference: &Reference) -> (constant: Option<Constant>)
        ensures
            optional_constant_view(constant) == resolution(
                self.constants(),
                self.probes_root_anchored_names(),
                reference@,
            ),
    {
        let possible_constants = reference.possible_fully_qualified_constants();
        let ghost candidates = strings_view(possible_constants@);
        let mut i: usize = 0;
        while i < possible_constants.len()
            invariant
                i <= possible_constants.len(),
                candidates == strings_view(possible_constants@),
                candidates == fully_qualified_candidates(
                    reference@.name,
                    reference@.namespace_path,
                ),
                first_match(self.constants(), self.probes_root_anchored_names(), candidates, 0)
                    == first_match(
                    self.constants(),
                    self.probes_root_anchored_names(),
                    candidates,
                    i as int,
                ),
            decreases possible_constants.len() - i,
        {
            let found = self.constant_for(possible_constants[i].as_str());
            if found.is_some() {
                return found;
            }
            i += 1;
        }
        None
    }
}

/// The constant that a definition of the file at `path` makes known.
pub open spec fn defined_constant(path: Seq<char>, definition: DefinitionView) -> ConstantView {
    ConstantView {
        fully_qualified_name: definition.fully_qualified_name,
        absolute_path_of_definition: path,
        namespace_path: definition.namespace_path,
    }
}

/// The constants that the first `count` definitions of `file` make known.
pub open spec fn file_constants(file: ProcessedFileView, count: nat) -> Seq<ConstantView>
    decreases count,
{
    if count == 0 || count > file.definitions.len() {
        Seq::empty()
    } else {
        file_constants(file, (count - 1) as nat).push(
            defined_constant(file.absolute_path, file.definitions[count - 1]),
        )
    }
}

/// The constants that `files` make known: those of each file, in the order
/// of the files and of their definitions.
pub open spec fn defined_constants(files: Seq<ProcessedFileView>) -> Seq<ConstantView>
    decreases files.len(),
{
    if files.len() == 0 {
        Seq::empty()
    } else {
        defined_constants(files.drop_last()) + file_constants(
            files.last(),
            files.last().definitions.len(),
        )
    }
}

/// The values of a list of processed files.
pub open spec fn processed_files_view(files: Seq<ProcessedFile>) -> Seq<ProcessedFileView> {
    files.map_values(|f: ProcessedFile| f@)
}

/// Collects the constants that `processed_files` define.
pub fn constants_of(processed_files: &Vec<ProcessedFile>) -> (constants: Vec<Constant>)
    ensures
        constants_view(constants@) == defined_constants(processed_files_view(processed_files@)),
{
    let ghost files = processed_files_view(processed_files@);
    let mut constants: Vec<Constant> = Vec::new();
    proof {
        assert(constants_view(constants@) =~= Seq::empty());
    }
    let mut i: usize = 0;
    while i < processed_files.len()
        invariant
            i <= processed_files.len(),
            files == processed_files_view(processed_files@),
            constants_view(constants@) == defined_constants(files.subrange(0, i as int)),
        decreases processed_files.len() - i,
    {
        let file = &processed_files[i];
        let ghost before = constants_view(constants@);
        proof {
            assert(files.subrange(0, i + 1).drop_last() =~= files.subrange(0, i as int));
            assert(files.subrange(0, i + 1).last() == file@);
            assert(before + file_constants(file@, 0) =~= before);
        }
        let mut j: usize = 0;
        while j < file.definitions.len()
            invariant
                j <= file.definitions.len(),
                constants_view(constants@) == before + file_constants(file@, j as nat),
            decreases file.definitions.len() - j,
        {
            let definition = &file.definitions[j];
            let constant = Constant {
                fully_qualified_name: definition.fully_qualified_name.clone(),
                absolute_path_of_definition: file.absolute_path.clone(),
                namespace_path: clone_strings(&definition.namespace_path),
            };
            proof {
                assert(file@.definitions[j as int] == definition@);
                assert(constant@ == defined_constant(file@.absolute_path, definition@));
                assert(file@.definitions.len() == file.definitions@.len());
                assert(file_constants(file@, (j + 1) as nat) == file_constants(
                    file@,
                    j as nat,
                ).push(constant@));
                assert(constants_view(constants@.push(constant)) =~= constants_view(
                    constants@,
                ).push(constant@));
                assert((before + file_constants(file@, j as nat)).push(constant@) =~= before
                    + file_constants(file@, (j + 1) as nat));
            }
            constants.push(constant);
            j += 1;
        }
        proof {
            assert(file@.definitions.len() == file.definitions.len());
        }
        i += 1;
    }
    proof {
        assert(files.subrange(0, files.len() as int) =~= files);
    }
    constants
}

/// Builds the resolver that knows every constant that `processed_files`
/// define. It looks each candidate up as it stands and, where that finds
/// nothing, anchored at the root.
pub fn get_experimental_constant_resolver(
    processed_files: &Vec<ProcessedFile>,
) -> (resolver: ConstantResolver)
    ensures
        resolver.constants() == constant_map(
            defined_constants(processed_files_view(processed_files@)),
        ),
        resolver.probes_root_anchored_names(),
{
    let constants = constants_of(processed_files);
    ConstantResolver::new(&constants, true)
}

} // verus!
