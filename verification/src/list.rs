//! Lists of dependencies: how they are laid out, and how an entry is put
//! into one.

use vstd::prelude::*;
use toml_edit::{Array, RawString};
use crate::layout::{
    entry_prefix, lay_out_prefix, lay_out_trailing, lemma_entry_prefix_idempotent,
    lemma_list_trailing_idempotent, list_trailing,
};
use crate::name::{normalize_chars, same_package};
use crate::requirement::{pep508_name, requirement_name};
use crate::text::{chars_of, same_chars, string_of};
use crate::tree::{
    array_get, array_get_mut, array_len, array_model, array_push, array_replace,
    array_set_trailing, array_set_trailing_comma, array_trailing, decor_prefix,
    decor_set_prefix, decor_set_suffix, decor_suffix, raw_as_str, raw_model, replacement,
    value_as_str, value_decor_mut, with_pushed, with_slot, Decoration, Entry, List,
};

verus! {

/// The text `t`, or no text where there is none.
pub open spec fn text_or_empty(t: Option<Seq<char>>) -> Seq<char> {
    match t {
        Some(s) => s,
        None => Seq::empty(),
    }
}

/// `e` on a line of its own: the comments that stood around it are moved
/// before it, and nothing stands after it.
pub open spec fn laid_out_entry(e: Entry) -> Entry {
    Entry {
        decor: Decoration {
            prefix: Some(
                entry_prefix(text_or_empty(e.decor.prefix), text_or_empty(e.decor.suffix)),
            ),
            suffix: Some(Seq::empty()),
        },
        ..e
    }
}

/// The slot `s` with its value, if it holds one, on a line of its own.
pub open spec fn laid_out_slot(s: Option<Entry>) -> Option<Entry> {
    match s {
        Some(e) => Some(laid_out_entry(e)),
        None => None,
    }
}

/// `list` with one value on each line: every value is laid out, the comments
/// after the last value are kept on lines of their own, and a comma follows
/// the last value.
pub open spec fn laid_out(list: List) -> List {
    List {
        entries: Seq::new(list.entries.len(), |i: int| laid_out_slot(list.entries[i])),
        trailing: Some(list_trailing(text_or_empty(list.trailing), list.entries.len() > 0)),
        trailing_comma: true,
    }
}

/// The characters of `raw`; none where it is missing or has no text of its
/// own.
fn raw_chars(raw: Option<&RawString>) -> (out: Vec<char>)
    ensures
        raw matches Some(r) ==> out@ == text_or_empty(raw_model(*r)),
        raw is None ==> out@ == Seq::<char>::empty(),
{
    match raw {
        Some(r) => match raw_as_str(r) {
            Some(text) => chars_of(text),
            None => Vec::new(),
        },
        None => Vec::new(),
    }
}

/// Writes the array with one value on each line, indented, with a comma
/// after the last one. Comments in the array are kept. An array that is
/// laid out already is left as it is.
pub fn format_multiline_array(deps: &mut Array)
    ensures
        array_model(*final(deps)) == laid_out(array_model(*old(deps))),
        array_model(*final(deps)) == array_model(*old(deps)) ==> *final(deps) == *old(deps),
{
    let n = array_len(deps);
    let ghost start = array_model(*deps);
    let mut i: usize = 0;
    while i < n
        invariant
            i <= n,
            n == start.entries.len(),
            start == array_model(*old(deps)),
            array_model(*deps).entries.len() == n,
            array_model(*deps).trailing == start.trailing,
            array_model(*deps).trailing_comma == start.trailing_comma,
            forall|j: int| 0 <= j < i ==> array_model(*deps).entries[j] == laid_out_slot(
                start.entries[j],
            ),
            forall|j: int| i <= j < n ==> array_model(*deps).entries[j] == start.entries[j],
            (forall|j: int| 0 <= j < i ==> laid_out_slot(start.entries[j]) == start.entries[j])
                ==> *deps == *old(deps),
        decreases n - i,
    {
        match array_get_mut(deps, i) {
            Some(value) => {
                let decor = value_decor_mut(value);
                let before = raw_chars(decor_prefix(decor));
                let after = raw_chars(decor_suffix(decor));
                let prefix = string_of(&lay_out_prefix(&before, &after));
                decor_set_prefix(decor, prefix.as_str());
                proof {
                    reveal_strlit("");
                    assert(""@ =~= Seq::<char>::empty());
                }
                decor_set_suffix(decor, "");
            },
            None => {},
        }
        i += 1;
    }
    let trailing = raw_chars(Some(array_trailing(deps)));
    let new_trailing = string_of(&lay_out_trailing(&trailing, n > 0));
    array_set_trailing(deps, new_trailing.as_str());
    array_set_trailing_comma(deps, true);
    assert(array_model(*deps).entries =~= laid_out(start).entries);
}

/// The name of the package that the value in slot `s` asks for; `None`
/// where the slot holds no string, or one that is no dependency specifier.
pub open spec fn slot_name(s: Option<Entry>) -> Option<Seq<char>> {
    match s {
        Some(e) => match e.text {
            Some(text) => pep508_name(text),
            None => None,
        },
        None => None,
    }
}

/// The names of the packages that the values of `list` ask for, slot by slot.
pub open spec fn names_of(list: List) -> Seq<Option<Seq<char>>> {
    Seq::new(list.entries.len(), |i: int| slot_name(list.entries[i]))
}

/// The strings that the values of `list` hold, slot by slot.
pub open spec fn texts_of(list: List) -> Seq<Option<Seq<char>>> {
    Seq::new(
        list.entries.len(),
        |i: int|
            match list.entries[i] {
                Some(e) => e.text,
                None => None,
            },
    )
}

/// What `names` holds, each name as its characters.
pub open spec fn name_views(names: Seq<Option<String>>) -> Seq<Option<Seq<char>>> {
    Seq::new(
        names.len(),
        |i: int|
            match names[i] {
                Some(n) => Some(n@),
                None => None,
            },
    )
}

/// Whether the name in place `i` of `names` is the package `name`.
pub open spec fn is_match(names: Seq<Option<Seq<char>>>, name: Seq<char>, i: int) -> bool {
    &&& 0 <= i < names.len()
    &&& names[i] matches Some(n)
    &&& same_package(n, name)
}

/// The first place of `names` that holds the package `name`.
pub open spec fn first_match(names: Seq<Option<Seq<char>>>, name: Seq<char>) -> Option<int>
    decreases names.len(),
{
    if names.len() == 0 {
        None
    } else {
        match first_match(names.drop_last(), name) {
            Some(i) => Some(i),
            None => if is_match(names, name, names.len() - 1) {
                Some(names.len() - 1)
            } else {
                None
            },
        }
    }
}

/// `first_match` gives a place that holds the package, with none before it
/// that does; it gives none only where no place does.
pub proof fn lemma_first_match(names: Seq<Option<Seq<char>>>, name: Seq<char>)
    ensures
        first_match(names, name) matches Some(i) ==> is_match(names, name, i) && forall|j: int|
            0 <= j < i ==> !is_match(names, name, j),
        first_match(names, name) is None ==> forall|j: int| !is_match(names, name, j),
    decreases names.len(),
{
    if names.len() > 0 {
        let init = names.drop_last();
        lemma_first_match(init, name);
        assert forall|j: int| 0 <= j < init.len() implies is_match(init, name, j) == is_match(
            names,
            name,
            j,
        ) by {}
    }
}

/// The place that `first_match` gives is the only one that holds the package
/// and has none before it that does.
pub proof fn lemma_first_match_is(names: Seq<Option<Seq<char>>>, name: Seq<char>, at: Option<int>)
    requires
        at matches Some(i) ==> is_match(names, name, i) && forall|j: int|
            0 <= j < i ==> !is_match(names, name, j),
        at is None ==> forall|j: int| 0 <= j < names.len() ==> !is_match(names, name, j),
    ensures
        first_match(names, name) == at,
{
    lemma_first_match(names, name);
}

/// The first place of `names` that holds the package `name`: the names are
/// compared in their normal form.
pub fn find_package(names: &Vec<Option<String>>, name: &str) -> (res: Option<usize>)
    ensures
        res matches Some(i) ==> first_match(name_views(names@), name@) == Some(i as int),
        res is None ==> first_match(name_views(names@), name@) is None,
{
    let wanted = normalize_chars(&chars_of(name));
    let ghost views = name_views(names@);
    let mut i: usize = 0;
    while i < names.len()
        invariant
            i <= names.len(),
            views == name_views(names@),
            wanted@ == crate::name::normalized(name@),
            forall|j: int| 0 <= j < i ==> !is_match(views, name@, j),
        decreases names.len() - i,
    {
        match &names[i] {
            Some(found) => {
                let normal = normalize_chars(&chars_of(found.as_str()));
                if same_chars(&normal, &wanted) {
                    proof {
                        lemma_first_match_is(views, name@, Some(i as int));
                    }
                    return Some(i);
                }
            },
            None => {},
        }
        i += 1;
    }
    proof {
        lemma_first_match_is(views, name@, None);
    }
    None
}

/// The name of the package that each value of `deps` asks for, slot by slot.
pub fn entry_names(deps: &Array) -> (names: Vec<Option<String>>)
    ensures
        name_views(names@) == names_of(array_model(*deps)),
{
    let n = array_len(deps);
    let mut names: Vec<Option<String>> = Vec::new();
    let mut i: usize = 0;
    while i < n
        invariant
            i <= n,
            n == array_model(*deps).entries.len(),
            names@.len() == i,
            forall|j: int|
                0 <= j < i ==> (#[trigger] name_views(names@)[j]) == slot_name(
                    array_model(*deps).entries[j],
                ),
        decreases n - i,
    {
        let ghost before = name_views(names@);
        let name = match array_get(deps, i) {
            Some(value) => match value_as_str(value) {
                Some(text) => match requirement_name(text) {
                    Ok(name) => Some(name),
                    Err(_) => None,
                },
                None => None,
            },
            None => None,
        };
        names.push(name);
        proof {
            assert forall|j: int| 0 <= j < i + 1 implies (#[trigger] name_views(names@)[j])
                == slot_name(array_model(*deps).entries[j]) by {
                if j < i {
                    assert(before[j] == slot_name(array_model(*deps).entries[j]));
                }
            }
        }
        i += 1;
    }
    names
}

/// Where the dependency `dep` for the package `name` is put into `list`: the
/// place of the first value that asks for that package, or the end of the
/// list where none does.
pub open spec fn place_of(list: List, name: Seq<char>) -> int {
    match first_match(names_of(list), name) {
        Some(i) => i,
        None => list.entries.len() as int,
    }
}

/// `list` with the dependency `dep` for the package `name` put into it, as
/// it stands before it is laid out: `dep` takes the place of the first value
/// that asks for that package and keeps what stood around it, or is added
/// at the end where none does.
pub open spec fn placed(list: List, dep: Seq<char>, name: Seq<char>) -> List {
    match first_match(names_of(list), name) {
        Some(i) => with_slot(list, i, replacement(list.entries[i]->0, dep)),
        None => with_pushed(list, dep),
    }
}

/// `list` with the dependency `dep` for the package `name`: `dep` is put
/// into it, and the list is then laid out.
pub open spec fn upserted(list: List, dep: Seq<char>, name: Seq<char>) -> List {
    laid_out(placed(list, dep, name))
}

/// Puts the dependency `dependency`, which asks for the package `name`, into
/// `deps`, and lays `deps` out. An array that holds the dependency in that
/// place already, and is laid out, is left as it is.
pub fn upsert_entry(deps: &mut Array, dependency: &str, name: &str)
    ensures
        array_model(*final(deps)) == upserted(array_model(*old(deps)), dependency@, name@),
        array_model(*final(deps)) == array_model(*old(deps)) ==> *final(deps) == *old(deps),
{
    let names = entry_names(deps);
    let ghost list = array_model(*deps);
    proof {
        lemma_first_match(names_of(list), name@);
    }
    match find_package(&names, name) {
        Some(index) => {
            array_replace(deps, index, dependency);
        },
        None => {
            array_push(deps, dependency);
        },
    }
    let ghost changed = array_model(*deps);
    format_multiline_array(deps);
    assert(array_model(*deps) == list ==> changed.entries =~= list.entries);
}

/// Laying a list out a second time changes nothing.
pub proof fn lemma_laid_out_idempotent(list: List)
    ensures
        laid_out(laid_out(list)) == laid_out(list),
{
    let once = laid_out(list);
    let twice = laid_out(once);
    assert forall|i: int| 0 <= i < list.entries.len() implies twice.entries[i]
        == once.entries[i] by {
        if let Some(e) = list.entries[i] {
            lemma_entry_prefix_idempotent(
                text_or_empty(e.decor.prefix),
                text_or_empty(e.decor.suffix),
            );
        }
    }
    assert(twice.entries =~= once.entries);
    lemma_list_trailing_idempotent(text_or_empty(list.trailing), list.entries.len() > 0);
}

/// Laying a list out keeps the strings of its values, and so the packages
/// that they ask for.
pub proof fn lemma_laid_out_keeps_texts(list: List)
    ensures
        texts_of(laid_out(list)) == texts_of(list),
        names_of(laid_out(list)) == names_of(list),
{
}

/// Once a dependency is in a list, the first entry for its package is that
/// dependency.
pub proof fn lemma_placed_is_first_match(list: List, dep: Seq<char>, name: Seq<char>)
    requires
        pep508_name(dep) == Some(name),
    ensures
        first_match(names_of(placed(list, dep, name)), name) == Some(place_of(list, name)),
        0 <= place_of(list, name) < placed(list, dep, name).entries.len(),
        placed(list, dep, name).entries[place_of(list, name)] matches Some(e) && e.text == Some(dep)
            && e.raw is None,
{
    let names = names_of(list);
    let after = placed(list, dep, name);
    let k = place_of(list, name);
    lemma_first_match(names, name);
    assert forall|j: int| 0 <= j < k implies !is_match(names_of(after), name, j) by {
        assert(!is_match(names, name, j));
    }
    lemma_first_match_is(names_of(after), name, Some(k));
}

/// Putting the same dependency into a list a second time changes nothing.
pub proof fn lemma_upserted_idempotent(list: List, dep: Seq<char>, name: Seq<char>)
    requires
        pep508_name(dep) == Some(name),
    ensures
        upserted(upserted(list, dep, name), dep, name) == upserted(list, dep, name),
{
    let first = placed(list, dep, name);
    let once = laid_out(first);
    lemma_placed_is_first_match(list, dep, name);
    lemma_laid_out_keeps_texts(first);
    assert(placed(once, dep, name).entries =~= once.entries);
    lemma_laid_out_idempotent(first);
}

/// What a list holds after a dependency is put into it. Where an entry asks
/// for the same package, the list is as long as before and the first such
/// entry is now the dependency, in the same place. Where none does, the
/// dependency is added at the end. Every other entry stays where it was.
pub proof fn lemma_upserted_texts(list: List, dep: Seq<char>, name: Seq<char>)
    ensures
        first_match(names_of(list), name) matches Some(i) ==> texts_of(upserted(list, dep, name))
            == texts_of(list).update(i, Some(dep)),
        first_match(names_of(list), name) is None ==> texts_of(upserted(list, dep, name))
            == texts_of(list).push(Some(dep)),
{
    lemma_first_match(names_of(list), name);
    lemma_laid_out_keeps_texts(placed(list, dep, name));
}

} // verus!
