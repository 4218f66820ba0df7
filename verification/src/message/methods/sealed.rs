use vstd::prelude::*;

use super::binding::Binding;

verus! {

/// Closes the set of methods: only the types of this crate are methods.
pub trait Sealed {

}

impl Sealed for Binding {

}

} // verus!
