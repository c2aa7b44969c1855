//! Package names, compared without regard to case and separators.

use vstd::prelude::*;
use crate::text::{chars_of, string_of};

verus! {

/// The characters that separate the parts of a package name.
pub open spec fn is_separator(c: char) -> bool {
    c == '-' || c == '_' || c == '.'
}

/// `c` in lower case, where it is an ASCII capital; else `c` itself.
pub open spec fn lower(c: char) -> char {
    if 'A' <= c && c <= 'Z' {
        ((c as u8) + 32) as char
    } else {
        c
    }
}

/// The normal form of a package name: every letter in lower case, and every
/// run of `-`, `_` and `.` replaced by a single `-`.
pub open spec fn normalized(name: Seq<char>) -> Seq<char>
    decreases name.len(),
{
    if name.len() == 0 {
        Seq::empty()
    } else {
        let init = name.drop_last();
        let c = name.last();
        if is_separator(c) {
            if init.len() > 0 && is_separator(init.last()) {
                normalized(init)
            } else {
                normalized(init).push('-')
            }
        } else {
            normalized(init).push(lower(c))
        }
    }
}

/// Whether two package names are the same package.
pub open spec fn same_package(a: Seq<char>, b: Seq<char>) -> bool {
    normalized(a) == normalized(b)
}

fn is_separator_char(c: char) -> (res: bool)
    ensures
        res == is_separator(c),
{
    c == '-' || c == '_' || c == '.'
}

fn lower_char(c: char) -> (res: char)
    ensures
        res == lower(c),
{
    if 'A' <= c && c <= 'Z' {
        ((c as u8) + 32) as char
    } else {
        c
    }
}

/// The normal form of `name`, as characters.
pub fn normalize_chars(name: &Vec<char>) -> (out: Vec<char>)
    ensures
        out@ == normalized(name@),
{
    let mut out: Vec<char> = Vec::new();
    let mut after_separator = false;
    let mut i: usize = 0;
    while i < name.len()
        invariant
            i <= name.len(),
            out@ == normalized(name@.take(i as int)),
            after_separator == (i > 0 && is_separator(name@[i - 1])),
        decreases name.len() - i,
    {
        let c = name[i];
        assert(name@.take(i as int + 1).drop_last() =~= name@.take(i as int));
        if is_separator_char(c) {
            if !after_separator {
                out.push('-');
            }
            after_separator = true;
        } else {
            out.push(lower_char(c));
            after_separator = false;
        }
        i += 1;
    }
    assert(name@.take(name.len() as int) =~= name@);
    out
}

/// The normal form of the package name `name`.
pub fn normalize(name: &str) -> (out: String)
    ensures
        out@ == normalized(name@),
{
    let chars = chars_of(name);
    let normal = normalize_chars(&chars);
    string_of(&normal)
}

/// A name in normal form: it holds no capital and no separator but `-`, and
/// no two `-` stand side by side.
pub open spec fn is_normal(s: Seq<char>) -> bool {
    &&& forall|i: int|
        0 <= i < s.len() ==> lower(#[trigger] s[i]) == s[i] && s[i] != '_' && s[i] != '.'
    &&& forall|i: int| 0 < i < s.len() ==> !(s[i - 1] == '-' && #[trigger] s[i] == '-')
}

/// A letter in lower case stays as it is when it is lowered again, and no
/// letter is lowered to a separator.
proof fn lemma_lower(c: char)
    ensures
        lower(lower(c)) == lower(c),
        !is_separator(c) ==> !is_separator(lower(c)),
{
}

/// The normal form of a name is a name in normal form. It ends in `-`
/// exactly where the name ends in a separator.
pub proof fn lemma_normalized_is_normal(name: Seq<char>)
    ensures
        is_normal(normalized(name)),
        name.len() > 0 ==> normalized(name).len() > 0,
        name.len() > 0 ==> (normalized(name).last() == '-' <==> is_separator(name.last())),
    decreases name.len(),
{
    if name.len() > 0 {
        lemma_normalized_is_normal(name.drop_last());
        lemma_lower(name.last());
    }
}

/// A name in normal form is its own normal form.
pub proof fn lemma_normal_is_fixed(s: Seq<char>)
    requires
        is_normal(s),
    ensures
        normalized(s) == s,
    decreases s.len(),
{
    if s.len() > 0 {
        let init = s.drop_last();
        assert(is_normal(init));
        lemma_normal_is_fixed(init);
    }
}

/// Bringing a name into normal form a second time changes nothing, so a
/// name and its normal form are the same package.
pub proof fn lemma_normalized_idempotent(name: Seq<char>)
    ensures
        normalized(normalized(name)) == normalized(name),
        same_package(normalized(name), name),
{
    lemma_normalized_is_normal(name);
    lemma_normal_is_fixed(normalized(name));
}

} // verus!
