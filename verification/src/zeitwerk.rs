//! Constants by convention: a Ruby file below a directory from which code is
//! loaded on demand is taken to define the constant that its path spells.

use crate::constant_resolver::{
    constant_map, constants_view, optional_constant_view, Constant, ConstantResolver,
    ConstantView,
};
use crate::text::{concat, push_char, same_text, strings_view};
use vstd::prelude::*;
use vstd::std_specs::iter::IteratorSpec;
use vstd::string::*;

verus! {

/// A directory from which code is loaded on demand, without a slash at its
/// end, and what the names of the constants below it begin with: `::` for a
/// directory that stands for the global root, `::Admin::` for one that
/// stands for the namespace `Admin`.
#[derive(Debug, PartialEq, Eq)]
pub struct AutoloadPath {
    pub directory: String,
    pub namespace_prefix: String,
}

/// The value of an `AutoloadPath`.
pub struct AutoloadPathView {
    pub directory: Seq<char>,
    pub namespace_prefix: Seq<char>,
}

impl View for AutoloadPath {
    type V = AutoloadPathView;

    open spec fn view(&self) -> AutoloadPathView {
        AutoloadPathView { directory: self.directory@, namespace_prefix: self.namespace_prefix@ }
    }
}

/// The values of a list of autoload paths.
pub open spec fn autoload_paths_view(paths: Seq<AutoloadPath>) -> Seq<AutoloadPathView> {
    paths.map_values(|p: AutoloadPath| p@)
}

/// The capital letter of a small letter of the basic Latin alphabet; any
/// other character is left as it is.
pub open spec fn capital(c: char) -> char {
    if 'a' <= c && c <= 'z' {
        ((c as u8) - 32) as char
    } else {
        c
    }
}

/// What the character at position `i` of `path` contributes to the name
/// that `path` spells: a slash gives the scope separator, an underscore
/// gives nothing, a character that begins a word gives its capital, and any
/// other character gives itself. A word begins at the start of the path,
/// after a slash and after an underscore.
pub open spec fn camelized_at(path: Seq<char>, i: int) -> Seq<char> {
    let c = path[i];
    if c == '/' {
        seq![':', ':']
    } else if c == '_' {
        Seq::empty()
    } else if i == 0 || path[i - 1] == '/' || path[i - 1] == '_' {
        seq![capital(c)]
    } else {
        seq![c]
    }
}

/// The name that the first `count` characters of `path` spell.
pub open spec fn camelized(path: Seq<char>, count: nat) -> Seq<char>
    decreases count,
{
    if count == 0 || count > path.len() {
        Seq::empty()
    } else {
        camelized(path, (count - 1) as nat) + camelized_at(path, count - 1)
    }
}

/// The extension of a Ruby source file.
pub open spec fn ruby_extension() -> Seq<char> {
    seq!['.', 'r', 'b']
}

/// The path of `file` below `directory` without the extension of a Ruby
/// file, where `file` is a Ruby file below `directory` and has a name before
/// its extension.
pub open spec fn relative_stem(directory: Seq<char>, file: Seq<char>) -> Option<Seq<char>> {
    if file.len() >= directory.len() + 5 && file.subrange(0, directory.len() as int) == directory
        && file[directory.len() as int] == '/' && file.subrange(file.len() - 3, file.len() as int)
        == ruby_extension() {
        Some(file.subrange(directory.len() as int + 1, file.len() - 3))
    } else {
        None
    }
}

/// The constant that `file` defines by convention below the autoload path
/// `root`, if it is a Ruby file below the directory of `root`.
pub open spec fn inferred_from(root: AutoloadPathView, file: Seq<char>) -> Option<ConstantView> {
    match relative_stem(root.directory, file) {
        Some(stem) => Some(
            ConstantView {
                fully_qualified_name: root.namespace_prefix + camelized(stem, stem.len()),
                absolute_path_of_definition: file,
                namespace_path: Seq::empty(),
            },
        ),
        None => None,
    }
}

/// The constant that `file` defines by convention: the one that it defines
/// below the first of `roots[from..]` that it stands below.
pub open spec fn inferred_constant(
    roots: Seq<AutoloadPathView>,
    file: Seq<char>,
    from: int,
) -> Option<ConstantView>
    decreases roots.len() - from,
{
    if from < 0 || from >= roots.len() {
        None
    } else {
        match inferred_from(roots[from], file) {
            Some(constant) => Some(constant),
            None => inferred_constant(roots, file, from + 1),
        }
    }
}

/// The constants that `files` define by convention, in the order of the
/// files.
pub open spec fn inferred_constants(
    roots: Seq<AutoloadPathView>,
    files: Seq<Seq<char>>,
) -> Seq<ConstantView>
    decreases files.len(),
{
    if files.len() == 0 {
        Seq::empty()
    } else {
        match inferred_constant(roots, files.last(), 0) {
            Some(constant) => inferred_constants(roots, files.drop_last()).push(constant),
            None => inferred_constants(roots, files.drop_last()),
        }
    }
}

fn capitalize(c: char) -> (upper: char)
    ensures
        upper == capital(c),
{
    if 'a' <= c && c <= 'z' {
        ((c as u8) - 32) as char
    } else {
        c
    }
}

/// Spells the name of the constant that the path `stem` stands for:
/// `admin/user_account` gives `Admin::UserAccount`.
pub fn camelize(stem: &str) -> (name: String)
    ensures
        name@ == camelized(stem@, stem@.len()),
{
    let mut name = String::new();
    let mut chars = stem.chars();
    let mut begins_word = true;
    let ghost mut consumed: Seq<char> = Seq::empty();
    proof {
        assert(stem@ =~= consumed + chars.remaining());
    }
    loop
        invariant
            stem@ == consumed + chars.remaining(),
            name@ == camelized(stem@, consumed.len()),
            begins_word == (consumed.len() == 0 || consumed.last() == '/' || consumed.last()
                == '_'),
        ensures
            name@ == camelized(stem@, stem@.len()),
        decreases stem@.len() - consumed.len(),
    {
        let ghost before = chars.remaining();
        match chars.next() {
            None => {
                proof {
                    assert(before =~= Seq::<char>::empty());
                    assert(stem@ =~= consumed);
                }
                break ;
            },
            Some(c) => {
                proof {
                    assert(stem@[consumed.len() as int] == c);
                    assert(stem@ =~= consumed.push(c) + chars.remaining());
                    if consumed.len() > 0 {
                        assert(stem@[consumed.len() - 1] == consumed.last());
                    }
                }
                if c == '/' {
                    push_char(&mut name, ':');
                    push_char(&mut name, ':');
                } else if c == '_' {
                } else if begins_word {
                    push_char(&mut name, capitalize(c));
                } else {
                    push_char(&mut name, c);
                }
                begins_word = c == '/' || c == '_';
                proof {
                    assert(name@ =~= camelized(stem@, consumed.len()) + camelized_at(
                        stem@,
                        consumed.len() as int,
                    ));
                    consumed = consumed.push(c);
                }
            },
        }
    }
    name
}

/// Infers the constant that `file` defines below the autoload path `root`.
pub fn constant_below(root: &AutoloadPath, file: &str) -> (constant: Option<Constant>)
    ensures
        optional_constant_view(constant) == inferred_from(root@, file@),
{
    let directory = root.directory.as_str();
    let directory_len = directory.unicode_len();
    let file_len = file.unicode_len();
    if file_len < 5 || file_len - 5 < directory_len {
        return None;
    }
    if !same_text(file.substring_char(0, directory_len), directory) {
        return None;
    }
    if file.get_char(directory_len) != '/' {
        return None;
    }
    proof {
        reveal_strlit(".rb");
        assert(".rb"@ =~= ruby_extension());
    }
    if !same_text(file.substring_char(file_len - 3, file_len), ".rb") {
        return None;
    }
    let stem = file.substring_char(directory_len + 1, file_len - 3);
    let name = camelize(stem);
    let namespace_path: Vec<String> = Vec::new();
    proof {
        assert(strings_view(namespace_path@) =~= Seq::empty());
    }
    Some(
        Constant {
            fully_qualified_name: concat(root.namespace_prefix.as_str(), name.as_str()),
            absolute_path_of_definition: file.to_owned(),
            namespace_path,
        },
    )
}

/// Infers the constant that `file` defines by convention, if it stands
/// below one of `autoload_paths`; the first such path decides.
pub fn infer_constant(autoload_paths: &Vec<AutoloadPath>, file: &str) -> (constant: Option<
    Constant,
>)
    ensures
        optional_constant_view(constant) == inferred_constant(
            autoload_paths_view(autoload_paths@),
            file@,
            0,
        ),
{
    let ghost roots = autoload_paths_view(autoload_paths@);
    let mut i: usize = 0;
    while i < autoload_paths.len()
        invariant
            i <= autoload_paths.len(),
            roots == autoload_paths_view(autoload_paths@),
            inferred_constant(roots, file@, 0) == inferred_constant(roots, file@, i as int),
        decreases autoload_paths.len() - i,
    {
        let found = constant_below(&autoload_paths[i], file);
        if found.is_some() {
            return found;
        }
        i += 1;
    }
    None
}

/// Infers the constants that `files` define by convention.
pub fn infer_constants(
    autoload_paths: &Vec<AutoloadPath>,
    files: &Vec<String>,
) -> (constants: Vec<Constant>)
    ensures
        constants_view(constants@) == inferred_constants(
            autoload_paths_view(autoload_paths@),
            strings_view(files@),
        ),
{
    let ghost roots = autoload_paths_view(autoload_paths@);
    let ghost paths = strings_view(files@);
    let mut constants: Vec<Constant> = Vec::new();
    proof {
        assert(constants_view(constants@) =~= Seq::empty());
    }
    let mut i: usize = 0;
    while i < files.len()
        invariant
            i <= files.len(),
            roots == autoload_paths_view(autoload_paths@),
            paths == strings_view(files@),
            constants_view(constants@) == inferred_constants(roots, paths.subrange(0, i as int)),
        decreases files.len() - i,
    {
        proof {
            assert(paths.subrange(0, i + 1).drop_last() =~= paths.subrange(0, i as int));
            assert(paths.subrange(0, i + 1).last() == files@[i as int]@);
        }
        match infer_constant(autoload_paths, files[i].as_str()) {
            Some(constant) => {
                proof {
                    assert(constants_view(constants@.push(constant)) =~= constants_view(
                        constants@,
                    ).push(constant@));
                }
                constants.push(constant);
            },
            None => {},
        }
        i += 1;
    }
    proof {
        assert(paths.subrange(0, paths.len() as int) =~= paths);
    }
    constants
}

/// Builds the resolver that knows the constants that `files` define by
/// convention below `autoload_paths`. It looks each candidate up as it
/// stands.
pub fn get_zeitwerk_constant_resolver(
    autoload_paths: &Vec<AutoloadPath>,
    files: &Vec<String>,
) -> (resolver: ConstantResolver)
    ensures
        resolver.constants() == constant_map(
            inferred_constants(autoload_paths_view(autoload_paths@), strings_view(files@)),
        ),
        !resolver.probes_root_anchored_names(),
{
    let constants = infer_constants(autoload_paths, files);
    ConstantResolver::new(&constants, false)
}

} // verus!
