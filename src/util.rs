//! Small conversions between `Option` and `Result`.
use vstd::prelude::*;

verus! {

/// The value, or `err` where there is none.
pub fn some_or<T, E>(o: Option<T>, err: E) -> (r: Result<T, E>)
    ensures
        match o {
            Some(v) => r == Ok::<T, E>(v),
            None => r == Err::<T, E>(err),
        },
{
    match o {
        Some(v) => Ok(v),
        None => Err(err),
    }
}

pub trait TryUnwrap<T, E>: Sized {
    fn try_unwrap(self, err: E) -> Result<T, E>;
}

impl<T, E> TryUnwrap<T, E> for Option<T> {
    fn try_unwrap(self, err: E) -> (r: Result<T, E>)
        ensures
            match self {
                Some(v) => r == Ok::<T, E>(v),
                None => r == Err::<T, E>(err),
            },
    {
        some_or(self, err)
    }
}

} // verus!
