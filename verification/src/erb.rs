//! Templates. The Ruby code of a template is processed like any Ruby file;
//! since the code does not stand in the template where it stands in the
//! text that was parsed, the places of its references are not kept, and a
//! template defines nothing.

use crate::experimental;
use crate::nodes::Node;
use crate::processed_file::{ProcessedFile, ProcessedFileView};
use crate::references::{lemma_references_view_push, references_view, Reference, ReferenceView};
use crate::span::Range;
use crate::text::{characters, clone_strings, push_char};
use vstd::prelude::*;
use vstd::string::StringSliceAdditionalSpecFns;

verus! {

/// The extension of a template.
pub open spec fn template_extension() -> Seq<char> {
    seq!['.', 'e', 'r', 'b']
}

/// `true` for the path of a template: one that ends in `.erb`.
pub open spec fn is_template_path(path: Seq<char>) -> bool {
    path.len() >= 4 && path.subrange(path.len() - 4, path.len() as int) == template_extension()
}

/// Tells whether the file at `path` is a template, to be processed as one.
pub fn is_template(path: &str) -> (template: bool)
    ensures
        template == is_template_path(path@),
{
    let chars = characters(path);
    let len = chars.len();
    if len < 4 {
        return false;
    }
    let found = chars[len - 4] == '.' && chars[len - 3] == 'e' && chars[len - 2] == 'r' && chars[len
        - 1] == 'b';
    proof {
        let ending = path@.subrange(path@.len() - 4, path@.len() as int);
        if found {
            assert(ending =~= template_extension());
        } else {
            assert(ending[0] == chars@[len - 4]);
            assert(ending[1] == chars@[len - 3]);
            assert(ending[2] == chars@[len - 2]);
            assert(ending[3] == chars@[len - 1]);
        }
    }
    found
}

/// `true` where a tag opens at position `i` of `template`: at `<%`.
pub open spec fn opens_tag(template: Seq<char>, i: int) -> bool {
    0 <= i && i + 1 < template.len() && template[i] == '<' && template[i + 1] == '%'
}

/// The length of the opening of the tag at position `i`: that of `<%` and
/// of the `=` and the `-` that may follow it, in this order.
pub open spec fn opening_len(template: Seq<char>, i: int) -> int {
    let after_mark = if i + 2 < template.len() && template[i + 2] == '=' {
        i + 3
    } else {
        i + 2
    };
    if after_mark < template.len() && template[after_mark] == '-' {
        after_mark + 1 - i
    } else {
        after_mark - i
    }
}

/// The length of the closing of a tag that begins at position `i` of
/// `template`, or 0 where none begins there: 2 for `%>` and 3 for `-%>`.
pub open spec fn closing_len(template: Seq<char>, i: int) -> int {
    if 0 <= i && i + 1 < template.len() && template[i] == '%' && template[i + 1] == '>' {
        2
    } else if 0 <= i && i + 2 < template.len() && template[i] == '-' && template[i + 1] == '%'
        && template[i + 2] == '>' {
        3
    } else {
        0
    }
}

/// The Ruby code of `template[i..]`, read inside a tag where `inside` is
/// set and outside any tag otherwise. What stands outside the tags is left
/// out. The code of a tag is what stands between its opening and its
/// closing, and a line feed stands for the closing, so that each tag is at
/// least one line of code.
pub open spec fn ruby_code(template: Seq<char>, i: int, inside: bool) -> Seq<char>
    decreases template.len() - i,
{
    if i < 0 || i >= template.len() {
        Seq::empty()
    } else if !inside {
        if opens_tag(template, i) {
            ruby_code(template, i + opening_len(template, i), true)
        } else {
            ruby_code(template, i + 1, false)
        }
    } else {
        if closing_len(template, i) > 0 {
            seq!['\n'] + ruby_code(template, i + closing_len(template, i), false)
        } else {
            seq![template[i]] + ruby_code(template, i + 1, true)
        }
    }
}

/// Extracts the Ruby code of a template: the code of its tags, one tag
/// after the other.
pub fn convert_erb_to_mangled_ruby(contents: &str) -> (ruby_contents: String)
    ensures
        ruby_contents@ == ruby_code(contents@, 0, false),
{
    let template = characters(contents);
    let len = template.len();
    let mut ruby_contents = String::new();
    let mut inside = false;
    let mut i: usize = 0;
    proof {
        assert(ruby_contents@ + ruby_code(template@, 0, false) =~= ruby_code(template@, 0, false));
    }
    while i < len
        invariant
            len == template.len(),
            i <= len,
            ruby_contents@ + ruby_code(template@, i as int, inside) == ruby_code(
                template@,
                0,
                false,
            ),
        decreases len - i,
    {
        let ghost code_before = ruby_contents@;
        let ghost rest = ruby_code(template@, i as int, inside);
        if !inside {
            if template[i] == '<' && len - i > 1 && template[i + 1] == '%' {
                let mut next = i + 2;
                if next < len && template[next] == '=' {
                    next += 1;
                }
                if next < len && template[next] == '-' {
                    next += 1;
                }
                assert(next == i + opening_len(template@, i as int));
                i = next;
                inside = true;
            } else {
                i += 1;
            }
        } else {
            let closing: usize = if template[i] == '%' && len - i > 1 && template[i + 1] == '>' {
                2
            } else if template[i] == '-' && len - i > 2 && template[i + 1] == '%' && template[i
                + 2] == '>' {
                3
            } else {
                0
            };
            assert(closing == closing_len(template@, i as int));
            if closing > 0 {
                push_char(&mut ruby_contents, '\n');
                proof {
                    assert(code_before.push('\n') + ruby_code(
                        template@,
                        i + closing,
                        false,
                    ) =~= code_before + rest);
                }
                i += closing;
                inside = false;
            } else {
                push_char(&mut ruby_contents, template[i]);
                proof {
                    assert(code_before.push(template@[i as int]) + ruby_code(
                        template@,
                        i + 1,
                        true,
                    ) =~= code_before + rest);
                }
                i += 1;
            }
        }
    }
    proof {
        assert(ruby_contents@ + ruby_code(template@, i as int, inside) =~= ruby_contents@);
    }
    ruby_contents
}

/// `reference` at an unknown place.
pub open spec fn without_location(reference: ReferenceView) -> ReferenceView {
    ReferenceView { location: Range::unknown(), ..reference }
}

/// `references`, each at an unknown place.
pub open spec fn without_locations(references: Seq<ReferenceView>) -> Seq<ReferenceView> {
    references.map_values(|r: ReferenceView| without_location(r))
}

/// What processing a template yields, where `text` is the Ruby code of the
/// template and `ast` the syntax tree of that code: the references that the
/// lightweight walk collects, each at an unknown place, and no definition.
pub open spec fn processed(text: Seq<u8>, ast: Option<&Node>, path: Seq<char>) -> ProcessedFileView {
    ProcessedFileView {
        absolute_path: path,
        unresolved_references: without_locations(
            experimental::processed(text, ast, path).unresolved_references,
        ),
        definitions: Seq::empty(),
    }
}

/// Processes the template at `path`. `ruby_contents` is the Ruby code of the
/// template and `ast` the syntax tree of that code, absent where the code
/// could not be parsed.
pub fn process_from_contents(
    ruby_contents: &str,
    ast: Option<&Node>,
    path: &str,
) -> (file: ProcessedFile)
    ensures
        file@ == processed(ruby_contents.spec_bytes(), ast, path@),
{
    let processed_file = experimental::process_from_contents(ruby_contents, ast, path);
    let references = processed_file.unresolved_references;
    let ghost located = references_view(references@);
    let mut references_without_range: Vec<Reference> = Vec::new();
    let mut i: usize = 0;
    while i < references.len()
        invariant
            i <= references.len(),
            located == references_view(references@),
            references_view(references_without_range@) == without_locations(
                located.subrange(0, i as int),
            ),
        decreases references.len() - i,
    {
        let r = &references[i];
        let reference = Reference {
            name: r.name.clone(),
            namespace_path: clone_strings(&r.namespace_path),
            location: Range::default(),
        };
        proof {
            assert(reference@ == without_location(located[i as int]));
            lemma_references_view_push(references_without_range@, reference);
            assert(located.subrange(0, i + 1) =~= located.subrange(0, i as int).push(
                located[i as int],
            ));
            assert(without_locations(located.subrange(0, i as int).push(located[i as int]))
                =~= without_locations(located.subrange(0, i as int)).push(
                without_location(located[i as int]),
            ));
        }
        references_without_range.push(reference);
        i += 1;
    }
    proof {
        assert(located.subrange(0, located.len() as int) =~= located);
    }
    let file = ProcessedFile {
        absolute_path: path.to_owned(),
        unresolved_references: references_without_range,
        definitions: Vec::new(),
    };
    proof {
        assert(file@.definitions =~= Seq::empty());
    }
    file
}

} // verus!
