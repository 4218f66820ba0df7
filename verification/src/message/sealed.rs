use vstd::prelude::*;

use super::Request;
use super::methods::Method;

verus! {

/// Closes the set of classes: only the types of this crate are classes.
pub trait Sealed {

}

impl<T: Method> Sealed for Request<T> {

}

} // verus!
