use vstd::prelude::*;

use crate::language::assoc::assoc_extend;
use crate::language::builtins::{standard_library, standard_library_entries};
use crate::language::environment::{Environment, SEnv};

verus! {

/// The environment programs start in: the standard library, and no enclosing environment.
pub fn root_environment() -> (r: Environment)
    ensures
        r@ == (SEnv { outer: None, variables: assoc_extend(Seq::empty(), standard_library_entries()) }),
{
    let mut root = Environment::new(None);
    root.import(standard_library());
    root
}

} // verus!
