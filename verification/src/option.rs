//! Fallible mapping of optional values.

use vstd::prelude::*;

verus! {

/// Maps the value of an option with a fallible function, keeping the
/// failure.
pub trait OptionResultExt<T>: Sized {
    /// The value that `self` holds, if any.
    spec fn held(&self) -> Option<T>;

    /// Applies `f` to the value of `self`, if there is one: `Ok(None)` where
    /// there is none, else `f`'s failure or its success wrapped in `Some`.
    fn and_maybe_then<U, F, E>(self, f: F) -> (r: Result<Option<U>, E>) where
        F: FnOnce(T) -> Result<U, E>,

        requires
            self.held() matches Some(v) ==> call_requires(f, (v,)),
        ensures
            match self.held() {
                None => r matches Ok(None),
                Some(v) => match r {
                    Ok(Some(u)) => call_ensures(f, (v,), Ok(u)),
                    Err(e) => call_ensures(f, (v,), Err(e)),
                    Ok(None) => false,
                },
            },
    ;
}

impl<T> OptionResultExt<T> for Option<T> {
    open spec fn held(&self) -> Option<T> {
        *self
    }

    fn and_maybe_then<U, F, E>(self, f: F) -> (r: Result<Option<U>, E>) where
        F: FnOnce(T) -> Result<U, E>,
     {
        if let Some(value) = self {
            match f(value) {
                Ok(v) => Ok(Some(v)),
                Err(e) => Err(e),
            }
        } else {
            Ok(None)
        }
    }
}

} // verus!
