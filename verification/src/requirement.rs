//! Dependency specifiers, as `pep508_rs` reads them.
//!
//! Nothing in this file is proved: the grammar of a specifier is that
//! crate's, and this library asks it only for the name of the package.

use vstd::prelude::*;
use pep508_rs::{Pep508Error, Requirement};

verus! {

#[verifier::external_type_specification]
#[verifier::external_body]
pub struct ExPep508Error(Pep508Error);

/// The name of the package that the dependency specifier `text` asks for;
/// `None` where `text` is no dependency specifier.
pub uninterp spec fn pep508_name(text: Seq<char>) -> Option<Seq<char>>;

/// `Requirement::from_str`, and of the requirement that it gives its field
/// `name`: the name of the package that `text` asks for, or the error where
/// `text` is no dependency specifier. The same text always gives the same
/// outcome.
#[verifier::external_body]
pub(crate) fn requirement_name(text: &str) -> (res: Result<String, Pep508Error>)
    ensures
        res matches Ok(name) ==> pep508_name(text@) == Some(name@),
        res is Err ==> pep508_name(text@) is None,
{
    text.parse::<Requirement>().map(|requirement| requirement.name)
}

/// The field `message` of a `Pep508Error`, as text: what went wrong.
#[verifier::external_body]
pub(crate) fn requirement_error_message(error: &Pep508Error) -> (res: String) {
    error.message.to_string()
}

} // verus!
