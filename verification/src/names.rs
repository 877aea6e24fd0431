use vstd::prelude::*;
use vstd::string::StringExecFns;

verus! {

/// Decides equality of two names by their character sequences.
pub fn str_eq(a: &str, b: &str) -> (r: bool)
    ensures
        r == (a@ == b@),
{
    let sa = String::from_str(a);
    let sb = String::from_str(b);
    sa == sb
}

} // verus!
