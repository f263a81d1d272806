//! Small helpers.

use vstd::pervasive::unreached;
use vstd::prelude::*;

verus! {

/// Insists that `o` holds nothing; `msg` says what was expected to be
/// absent. Verified callers prove the absence, so the check never fires for
/// them.
pub fn none_or_panic<T>(o: Option<T>, msg: &str)
    requires
        o is None,
{
    let _ = msg;
    match o {
        Some(_) => unreached(),
        None => (),
    }
}

} // verus!
