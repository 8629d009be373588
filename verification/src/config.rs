//! Document-location precedence.
//!
//! The caller of the core discovers candidate document locations (an
//! environment override, an explicit path argument, and the conventional
//! default directories) and hands them here as plain optional values; this
//! function only decides which one wins.  The core itself never reads
//! environment or filesystem state.

use vstd::prelude::*;

verus! {

/// Picks the document location: an environment override beats an explicit
/// path argument, which beats the upper-case default directory, which beats
/// the lower-case one.  Every candidate is `Some` only when its caller
/// found it to exist.
pub fn resolve_document_location(
    env_override: Option<String>,
    explicit_path: Option<String>,
    upper_default: Option<String>,
    lower_default: Option<String>,
) -> (r: Option<String>)
    ensures
        r == (if env_override is Some {
            env_override
        } else if explicit_path is Some {
            explicit_path
        } else if upper_default is Some {
            upper_default
        } else {
            lower_default
        }),
{
    match env_override {
        Option::Some(p) => Option::Some(p),
        Option::None => match explicit_path {
            Option::Some(p) => Option::Some(p),
            Option::None => match upper_default {
                Option::Some(p) => Option::Some(p),
                Option::None => lower_default,
            },
        },
    }
}

} // verus!
