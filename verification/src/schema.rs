//! The typed view of a manifest, as `pyproject_toml` declares it.
//!
//! Nothing in this file is proved: which documents fit the declared tables
//! is decided by that crate and by `toml_edit`'s deserializer.

use vstd::prelude::*;
use pyproject_toml::PyProjectToml;
use toml_edit::de::Error;

verus! {

#[verifier::external_type_specification]
#[verifier::external_body]
pub struct ExPyProjectToml(PyProjectToml);

#[verifier::external_type_specification]
#[verifier::external_body]
pub struct ExError(Error);

/// Whether `text` is a document whose `build-system` and `project` tables,
/// where it has them, hold what such tables may hold.
pub uninterp spec fn pyproject_accepts(text: Seq<char>) -> bool;

/// `toml_edit::de::from_str` for a `PyProjectToml`: the typed view of
/// `text`, or the error where the text does not fit it. The same text always
/// gives the same outcome.
#[verifier::external_body]
pub(crate) fn parse_pyproject(text: &str) -> (res: Result<PyProjectToml, Error>)
    ensures
        res is Ok <==> pyproject_accepts(text@),
{
    toml_edit::de::from_str::<PyProjectToml>(text)
}

/// `Error::message`: what went wrong, in words.
#[verifier::external_body]
pub(crate) fn schema_error_message(error: &Error) -> (res: String) {
    error.message().to_owned()
}

} // verus!
