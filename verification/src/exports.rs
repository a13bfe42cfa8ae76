//! Which files count as exports, and in what order they are read.

use crate::ordering::{insert_pos, stable_sort};
use crate::text::{
    chars_le, chars_of, contains_text, has_prefix, has_substring, occurs_at, starts_with,
};
use std::path::Path;
use vstd::prelude::*;

verus! {

/// A file name marks an export: it begins with `export_` and holds `.xls`
/// somewhere. The second test is loose on purpose: `.xlsx`, or `.xls`
/// followed by anything else, passes too.
pub open spec fn export_name(name: Seq<char>) -> bool {
    starts_with(name, "export_"@) && contains_text(name, ".xls"@)
}

/// The texts of a sequence of strings, in order.
pub open spec fn texts(names: Seq<String>) -> Seq<Seq<char>> {
    names.map_values(|s: String| s@)
}

/// The key that names are ordered by: the name itself.
pub open spec fn by_text() -> spec_fn(Seq<char>) -> Seq<char> {
    |t: Seq<char>| t
}

/// The export names among `names`, in lexicographic order.
pub open spec fn selected_exports(names: Seq<Seq<char>>) -> Seq<Seq<char>> {
    stable_sort(names.filter(|t: Seq<char>| export_name(t)), by_text())
}

/// Calls `std::path::Path::file_name` on the path that `Path::new` makes of
/// the text, and hands the name back as text. Trusted: the final component
/// that std returns is a contiguous part of the path; and a path that is a
/// plain name, with no separator and no prefix in it, is its own final
/// component. Which part of any other path is the final one depends on the
/// platform's separators and prefixes, so no more is claimed.
#[verifier::external_body]
pub(crate) fn file_name_of(path: &str) -> (r: Option<String>)
    ensures
        r matches Some(name) ==> contains_text(path@, name@),
        plain_name(path@) ==> r is Some,
        plain_name(path@) ==> r->Some_0@ == path@,
{
    match Path::new(path).file_name() {
        Some(name) => match name.to_str() {
            Some(text) => Some(text.to_string()),
            None => None,
        },
        None => None,
    }
}

/// Whether a file name marks an export.
pub fn is_export_name(name: &str) -> (r: bool)
    ensures
        r == export_name(name@),
{
    let chars = chars_of(name);
    has_prefix(&chars, &chars_of("export_")) && has_substring(&chars, &chars_of(".xls"))
}

/// What occurs in a part of a text occurs in the text.
pub proof fn lemma_contains_in_part(whole: Seq<char>, part: Seq<char>, needle: Seq<char>)
    requires
        contains_text(whole, part),
        contains_text(part, needle),
    ensures
        contains_text(whole, needle),
{
    let i = choose|i: int| occurs_at(whole, part, i);
    let j = choose|j: int| occurs_at(part, needle, j);
    assert(whole.subrange(i + j, i + j + needle.len()) =~= whole.subrange(
        i,
        i + part.len(),
    ).subrange(j, j + needle.len()));
    assert(occurs_at(whole, needle, i + j));
}

/// Whether a path names an export file: whether its final component, as std
/// reads the path, is an export name. A path without a final component names
/// none. A path that is accepted holds both marks of an export name.
pub fn is_export_file(path: &str) -> (r: bool)
    ensures
        plain_name(path@) ==> r == export_name(path@),
        exists|component: Option<Seq<char>>|
            #[trigger] may_be_final_component(path@, component) && r == export_component(
                component,
            ),
        r ==> contains_text(path@, "export_"@) && contains_text(path@, ".xls"@),
{
    let component = file_name_of(path);
    let r = is_export_component(&component);
    proof {
        let found = crate::entry::optional_text(component);
        assert(may_be_final_component(path@, found) && r == export_component(found));
        if r {
            lemma_export_component_marks(path@, found);
        }
    }
    r
}

/// The path is a single name: it is not empty, is neither `.` nor `..`, and
/// holds none of `/`, `\` and `:`. No platform finds a separator or a prefix
/// in such a path, so on every platform it is its own final component.
pub open spec fn plain_name(path: Seq<char>) -> bool {
    &&& path.len() > 0
    &&& path != seq!['.']
    &&& path != seq!['.', '.']
    &&& forall|i: int|
        0 <= i < path.len() ==> #[trigger] path[i] != '/' && path[i] != '\\' && path[i] != ':'
}

/// What is known of the final component that std finds in a path, on
/// whatever platform: where it finds one, the component is a contiguous part
/// of the path; and in a plain name it finds the name itself.
pub open spec fn may_be_final_component(path: Seq<char>, component: Option<Seq<char>>) -> bool {
    &&& component matches Some(name) ==> contains_text(path, name)
    &&& plain_name(path) ==> component == Some(path)
}

/// A final component names an export file: there is one, and it is an
/// export name.
pub open spec fn export_component(component: Option<Seq<char>>) -> bool {
    match component {
        Some(name) => export_name(name),
        None => false,
    }
}

/// Whether the final component of a path, as it was found, names an export
/// file. A path without a final component names none.
pub fn is_export_component(component: &Option<String>) -> (r: bool)
    ensures
        r == export_component(crate::entry::optional_text(*component)),
{
    match component {
        Some(name) => is_export_name(name.as_str()),
        None => false,
    }
}

/// A path whose final component names an export file holds both marks of an
/// export name.
pub proof fn lemma_export_component_marks(path: Seq<char>, component: Option<Seq<char>>)
    requires
        may_be_final_component(path, component),
        export_component(component),
    ensures
        contains_text(path, "export_"@),
        contains_text(path, ".xls"@),
{
    let name = component->Some_0;
    assert(occurs_at(name, "export_"@, 0));
    lemma_contains_in_part(path, name, "export_"@);
    lemma_contains_in_part(path, name, ".xls"@);
}

/// Where `name` goes into the ordered `out`.
fn place_name(out: &Vec<String>, name: &Vec<char>) -> (p: usize)
    ensures
        p == insert_pos(texts(out@), by_text(), name@),
{
    let mut p: usize = out.len();
    assert(texts(out@).take(p as int) =~= texts(out@));
    while p > 0
        invariant
            p <= out.len(),
            insert_pos(texts(out@), by_text(), name@) == insert_pos(
                texts(out@).take(p as int),
                by_text(),
                name@,
            ),
        decreases p,
    {
        let other = chars_of(out[p - 1].as_str());
        proof {
            let head = texts(out@).take(p as int);
            assert(head.last() == out@[p - 1]@);
            assert(by_text()(head.last()) == other@);
            assert(head.drop_last() =~= texts(out@).take(p - 1));
        }
        if chars_le(&other, name) {
            return p;
        }
        p -= 1;
    }
    p
}

/// The export files among the names of a directory, in the order in which
/// they are to be read: lexicographic.
pub fn select_exports(names: Vec<String>) -> (r: Vec<String>)
    ensures
        texts(r@) == selected_exports(texts(names@)),
        crate::ordering::sorted_by(texts(r@), by_text()),
        forall|i: int| 0 <= i < r@.len() ==> export_name(#[trigger] r@[i]@),
        r@.len() <= names@.len(),
{
    proof {
        lemma_selected_exports(texts(names@));
        assert forall|i: int| 0 <= i < selected_exports(texts(names@)).len() implies export_name(
            #[trigger] selected_exports(texts(names@))[i],
        ) by {
            assert(selected_exports(texts(names@)).contains(selected_exports(texts(names@))[i]));
        }
    }
    let ghost all = names@;
    let ghost wanted = |t: Seq<char>| export_name(t);
    let mut out: Vec<String> = Vec::new();
    assert(texts(all.take(0)) =~= Seq::<Seq<char>>::empty());
    assert(texts(out@) =~= Seq::<Seq<char>>::empty());
    assert(Seq::<Seq<char>>::empty().filter(wanted) =~= Seq::<Seq<char>>::empty()) by {
        reveal(Seq::filter);
    }
    for name in it: names
        invariant
            it.seq() == all,
            wanted == |t: Seq<char>| export_name(t),
            texts(out@) == stable_sort(texts(all.take(it.index())).filter(wanted), by_text()),
    {
        proof {
            let before = texts(all.take(it.index()));
            let upto = texts(all.take(it.index() + 1));
            assert(upto =~= before.push(name@));
            before.lemma_filter_push(name@, wanted);
            if export_name(name@) {
                assert(upto.filter(wanted).drop_last() =~= before.filter(wanted));
            }
        }
        if is_export_name(name.as_str()) {
            let chars = chars_of(name.as_str());
            let p = place_name(&out, &chars);
            proof {
                crate::ordering::lemma_insert_pos(texts(out@), by_text(), name@);
                assert(texts(out@.insert(p as int, name)) =~= texts(out@).insert(p as int, name@));
            }
            out.insert(p, name);
        }
    }
    assert(all.take(all.len() as int) =~= all);
    assert forall|i: int| 0 <= i < out@.len() implies export_name(#[trigger] out@[i]@) by {
        assert(texts(out@)[i] == out@[i]@);
    }
    out
}

/// What is selected is in lexicographic order and holds the export names
/// among the given names, each as often as it was given, and nothing else.
pub proof fn lemma_selected_exports(names: Seq<Seq<char>>)
    ensures
        crate::ordering::sorted_by(selected_exports(names), by_text()),
        selected_exports(names).len() <= names.len(),
        selected_exports(names).to_multiset() == names.filter(
            |t: Seq<char>| export_name(t),
        ).to_multiset(),
        forall|t: Seq<char>|
            #[trigger] selected_exports(names).contains(t) <==> names.contains(t) && export_name(
                t,
            ),
{
    let wanted = |t: Seq<char>| export_name(t);
    let chosen = names.filter(wanted);
    crate::ordering::lemma_stable_sort_is_sorted(chosen, by_text());
    crate::ordering::lemma_stable_sort_permutes(chosen, by_text());
    names.lemma_filter_len(wanted);
    assert forall|t: Seq<char>|
        #[trigger] selected_exports(names).contains(t) <==> names.contains(t) && export_name(
            t,
        ) by {
        vstd::seq_lib::to_multiset_contains(chosen, t);
        vstd::seq_lib::to_multiset_contains(selected_exports(names), t);
        if chosen.contains(t) {
            let i = choose|i: int| 0 <= i < chosen.len() && chosen[i] == t;
            names.lemma_filter_pred(wanted, i);
            names.lemma_filter_contains_rev(wanted, t);
        }
        if names.contains(t) && export_name(t) {
            let j = choose|j: int| 0 <= j < names.len() && names[j] == t;
            names.lemma_filter_contains(wanted, j);
        }
    }
}

} // verus!
