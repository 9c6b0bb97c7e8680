//! Validation of the columns on the `assets` spine, shared by every asset
//! class: the name must be non-blank once trimmed; a blank symbol is absent.

use vstd::prelude::*;

use crate::text::{
    nonblank_spec, opt_string_view, opt_view, optional_nonblank_spec, optional_trimmed,
    trimmed_nonblank,
};

verus! {

/// Trim the asset name and require it non-blank.
pub fn name(input: &str) -> (r: Result<String, &'static str>)
    ensures
        r is Ok <==> nonblank_spec(input@) is Some,
        r matches Ok(n) ==> nonblank_spec(input@) == Some(n@),
        r matches Err(m) ==> m == "name is required",
{
    match trimmed_nonblank(input) {
        Some(n) => Ok(n),
        None => Err("name is required"),
    }
}

/// Trim an optional symbol, treating blank as absent.
pub fn symbol(input: Option<&str>) -> (r: Option<String>)
    ensures
        opt_string_view(r) == optional_nonblank_spec(opt_view(input)),
{
    optional_trimmed(input)
}

} // verus!
