use vstd::prelude::*;
use path_slash::PathExt;
use std::path::Path;

verus! {

/// Why the template directory could not be scanned.
#[derive(Debug, Clone, Copy, PartialEq, Eq, Structural)]
pub enum ScanError {
    /// The root does not exist or cannot be made absolute.
    MissingRoot,
    /// An entry under the root could not be read.
    Unreadable,
    /// A path under the root has no name in slash form.
    Unnameable,
}

/// A relative path in the form that every host reads alike: segments that hold no `\`
/// or `:`, separated by single `/`, none of them empty or `.`.
pub open spec fn plain_relative(s: Seq<char>) -> bool {
    &&& s.len() > 0
    &&& s[0] != '/'
    &&& s.last() != '/'
    &&& forall|i: int| 0 <= i < s.len() ==> #[trigger] s[i] != '\\' && s[i] != ':'
    &&& forall|i: int| 0 <= i < s.len() - 1 && #[trigger] s[i] == '/' ==> s[i + 1] != '/'
    &&& forall|i: int|
        0 <= i < s.len() && #[trigger] s[i] == '.' && (i == 0 || s[i - 1] == '/') ==> (i + 1
            < s.len() && s[i + 1] != '/')
}

/// Relies on path_slash's `PathExt::to_slash`: host separators become `/`. On a host
/// that separates with `/` it hands the path back as it is; elsewhere a plain relative
/// path has the same segments, joined by `/`.
#[verifier::external_body]
fn to_slash(rel: &str) -> (r: Option<String>)
    ensures
        plain_relative(rel@) ==> r is Some,
        plain_relative(rel@) && r is Some ==> r->0@ == rel@,
{
    Path::new(rel).to_slash()
}

/// The logical name of a template from its path relative to the template root: the
/// same on every host for a plain relative path.
pub fn logical_name(rel: &str) -> (r: Result<String, ScanError>)
    ensures
        plain_relative(rel@) ==> (r matches Ok(n) && n@ == rel@),
        r matches Err(e) ==> e == ScanError::Unnameable,
{
    match to_slash(rel) {
        Some(n) => Ok(n),
        None => Err(ScanError::Unnameable),
    }
}

/// The logical names of all the templates found under the root, in the order given; a
/// path that cannot be named fails the whole scan, so that no partial set is built.
pub fn logical_names(rels: &Vec<String>) -> (r: Result<Vec<String>, ScanError>)
    ensures
        (forall|i: int| 0 <= i < rels@.len() ==> plain_relative(#[trigger] rels@[i]@)) ==> r is Ok,
        r matches Ok(names) ==> names@.len() == rels@.len() && forall|i: int|
            0 <= i < rels@.len() && plain_relative(#[trigger] rels@[i]@) ==> names@[i]@
                == rels@[i]@,
        r matches Err(e) ==> e == ScanError::Unnameable,
{
    let mut names: Vec<String> = Vec::new();
    let mut i: usize = 0;
    while i < rels.len()
        invariant
            i <= rels@.len(),
            names@.len() == i,
            forall|k: int|
                0 <= k < i && plain_relative(#[trigger] rels@[k]@) ==> names@[k]@ == rels@[k]@,
        decreases rels@.len() - i,
    {
        match logical_name(rels[i].as_str()) {
            Ok(n) => names.push(n),
            Err(e) => {
                return Err(e);
            },
        }
        i = i + 1;
    }
    Ok(names)
}

} // verus!
