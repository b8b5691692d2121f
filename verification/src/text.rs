//! Verified helpers for building and inspecting scope-qualified names.

use vstd::prelude::*;
use vstd::std_specs::iter::IteratorSpec;
use vstd::string::*;

verus! {

/// The scope separator `::` as a sequence of characters.
pub open spec fn scope_separator() -> Seq<char> {
    seq![':', ':']
}

/// `true` when `name` begins with the scope separator, that is, when it is
/// anchored at the global root.
pub open spec fn is_root_anchored(name: Seq<char>) -> bool {
    name.len() >= 2 && name[0] == ':' && name[1] == ':'
}

/// `name` anchored at the global root: the scope separator followed by `name`.
pub open spec fn root_anchored(name: Seq<char>) -> Seq<char> {
    scope_separator() + name
}

/// `name` looked up inside `scope`: `scope`, the separator, then `name`.
pub open spec fn qualified(scope: Seq<char>, name: Seq<char>) -> Seq<char> {
    scope + scope_separator() + name
}

/// The names of `path` joined by the scope separator; empty for an empty
/// path.
pub open spec fn join_scoped(path: Seq<Seq<char>>) -> Seq<char>
    decreases path.len(),
{
    if path.len() == 0 {
        Seq::empty()
    } else if path.len() == 1 {
        path[0]
    } else {
        qualified(join_scoped(path.drop_last()), path.last())
    }
}

/// The abstract value of a list of strings.
pub open spec fn strings_view(strings: Seq<String>) -> Seq<Seq<char>> {
    strings.map_values(|s: String| s@)
}

/// Appending a string to a list appends its value to the list's value.
pub proof fn lemma_strings_view_push(strings: Seq<String>, last: String)
    ensures
        strings_view(strings.push(last)) == strings_view(strings).push(last@),
{
    assert(strings_view(strings.push(last)) =~= strings_view(strings).push(last@));
}

/// Dropping the last string of a list drops the last value.
pub proof fn lemma_strings_view_drop_last(strings: Seq<String>)
    requires
        strings.len() > 0,
    ensures
        strings_view(strings.drop_last()) == strings_view(strings).drop_last(),
{
    assert(strings_view(strings.drop_last()) =~= strings_view(strings).drop_last());
}

/// A root-anchored name is recognised as such.
pub proof fn lemma_root_anchored_is_root_anchored(name: Seq<char>)
    ensures
        is_root_anchored(root_anchored(name)),
{
}

/// Tests whether `name` begins with `::`.
pub fn starts_with_scope_separator(name: &str) -> (anchored: bool)
    ensures
        anchored == is_root_anchored(name@),
{
    let mut chars = name.chars();
    let first = chars.next();
    let second = chars.next();
    first == Some(':') && second == Some(':')
}

/// Tests whether two texts hold the same characters.
pub fn same_text(left: &str, right: &str) -> (same: bool)
    ensures
        same == (left@ == right@),
{
    let mut left_chars = left.chars();
    let mut right_chars = right.chars();
    let ghost mut consumed: Seq<char> = Seq::empty();
    proof {
        assert(left@ =~= consumed + left_chars.remaining());
        assert(right@ =~= consumed + right_chars.remaining());
    }
    loop
        invariant
            left@ == consumed + left_chars.remaining(),
            right@ == consumed + right_chars.remaining(),
        decreases left@.len() - consumed.len(),
    {
        let ghost left_before = left_chars.remaining();
        let ghost right_before = right_chars.remaining();
        let next_left = left_chars.next();
        let next_right = right_chars.next();
        match (next_left, next_right) {
            (None, None) => {
                proof {
                    assert(left_before =~= Seq::<char>::empty());
                    assert(right_before =~= Seq::<char>::empty());
                }
                return true;
            },
            (Some(l), Some(r)) => {
                if l != r {
                    proof {
                        assert(left@[consumed.len() as int] == l);
                        assert(right@[consumed.len() as int] == r);
                    }
                    return false;
                }
                proof {
                    assert(left@ =~= consumed.push(l) + left_chars.remaining());
                    assert(right@ =~= consumed.push(l) + right_chars.remaining());
                    consumed = consumed.push(l);
                }
            },
            (Some(_), None) => {
                proof {
                    assert(right_before =~= Seq::<char>::empty());
                    assert(right@.len() == consumed.len());
                    assert(left@.len() > consumed.len());
                }
                return false;
            },
            (None, Some(_)) => {
                proof {
                    assert(left_before =~= Seq::<char>::empty());
                    assert(left@.len() == consumed.len());
                    assert(right@.len() > consumed.len());
                }
                return false;
            },
        }
    }
}

/// Appends `c` to `text` with `String::push`. Trusted: the text grows by
/// that one character at its end.
#[verifier::external_body]
pub(crate) fn push_char(text: &mut String, c: char)
    ensures
        final(text)@ == old(text)@.push(c),
{
    text.push(c)
}

/// Returns the characters of `text`.
pub fn characters(text: &str) -> (chars: Vec<char>)
    ensures
        chars@ == text@,
{
    let mut chars: Vec<char> = Vec::new();
    let mut rest = text.chars();
    proof {
        assert(text@ =~= chars@ + rest.remaining());
    }
    loop
        invariant
            text@ == chars@ + rest.remaining(),
        ensures
            chars@ == text@,
        decreases text@.len() - chars@.len(),
    {
        let ghost before = rest.remaining();
        match rest.next() {
            None => {
                proof {
                    assert(before =~= Seq::<char>::empty());
                    assert(text@ =~= chars@);
                }
                break ;
            },
            Some(c) => {
                proof {
                    assert(text@ =~= chars@.push(c) + rest.remaining());
                }
                chars.push(c);
            },
        }
    }
    chars
}

/// Returns `left` followed by `right`.
pub fn concat(left: &str, right: &str) -> (joined: String)
    ensures
        joined@ == left@ + right@,
{
    let mut joined = left.to_owned();
    joined.append(right);
    joined
}

/// Returns `::` followed by `name`.
pub fn root_anchor(name: &str) -> (anchored: String)
    ensures
        anchored@ == root_anchored(name@),
{
    proof {
        reveal_strlit("::");
        assert("::"@ =~= scope_separator());
    }
    let mut anchored = "::".to_owned();
    anchored.append(name);
    anchored
}

/// Returns `scope`, the scope separator and `name`, in that order.
pub fn qualify(scope: &str, name: &str) -> (joined: String)
    ensures
        joined@ == qualified(scope@, name@),
{
    proof {
        reveal_strlit("::");
        assert("::"@ =~= scope_separator());
    }
    let mut joined = scope.to_owned();
    joined.append("::");
    joined.append(name);
    joined
}

/// Joins the names of `path` with the scope separator.
pub fn join_path(path: &Vec<String>) -> (joined: String)
    ensures
        joined@ == join_scoped(strings_view(path@)),
{
    let mut joined = String::new();
    let mut i: usize = 0;
    while i < path.len()
        invariant
            i <= path.len(),
            joined@ == join_scoped(strings_view(path@.subrange(0, i as int))),
        decreases path.len() - i,
    {
        let ghost before = path@.subrange(0, i as int);
        let ghost after = path@.subrange(0, i + 1);
        proof {
            assert(after.drop_last() =~= before);
            assert(after.last() == path@[i as int]);
            lemma_strings_view_drop_last(after);
            assert(strings_view(after).last() == path@[i as int]@);
        }
        if i == 0 {
            joined = path[i].clone();
        } else {
            joined = qualify(joined.as_str(), path[i].as_str());
        }
        i += 1;
    }
    proof {
        assert(path@.subrange(0, path@.len() as int) =~= path@);
    }
    joined
}

/// Returns an independent copy of `strings`.
pub fn clone_strings(strings: &Vec<String>) -> (copy: Vec<String>)
    ensures
        strings_view(copy@) == strings_view(strings@),
{
    let mut copy: Vec<String> = Vec::new();
    let mut i: usize = 0;
    while i < strings.len()
        invariant
            i <= strings.len(),
            strings_view(copy@) == strings_view(strings@.subrange(0, i as int)),
        decreases strings.len() - i,
    {
        let ghost before = copy@;
        copy.push(strings[i].clone());
        proof {
            lemma_strings_view_push(before, copy@.last());
            assert(strings@.subrange(0, i + 1) =~= strings@.subrange(0, i as int).push(
                strings@[i as int],
            ));
            lemma_strings_view_push(strings@.subrange(0, i as int), strings@[i as int]);
        }
        i += 1;
    }
    proof {
        assert(strings@.subrange(0, strings@.len() as int) =~= strings@);
    }
    copy
}

} // verus!
