//! Implementations of [`Match`] and [`Case`] for standard types.
//!
//! An `Option` matches under two tags: `0` for `None` with a unit payload,
//! and `1` for `Some` carrying its value.  A `Result` matches under tag `0`
//! for `Ok` and tag `1` for `Err`, each carrying its value.  Both types are
//! closed, so their tag range is [`Exhaustive`] and every case expression
//! over them can be checked for exhaustiveness.

use vstd::prelude::*;

use crate::{Case, Exhaustive, Match};

verus! {

impl<T> Match for Option<T> {
    type Range = Exhaustive<2>;

    open spec fn tag_spec(&self) -> Option<usize> {
        match *self {
            None => Some(0),
            Some(_) => Some(1),
        }
    }

    fn tag(&self) -> (t: Option<usize>) {
        match self {
            None => Some(0),
            Some(_) => Some(1),
        }
    }
}

impl<T> Case<0> for Option<T> {
    type Case = ();

    open spec fn payload(this: Self) -> () {
        ()
    }

    open spec fn inject(c: ()) -> Self {
        None
    }

    proof fn payload_inject(this: Self) {
    }

    fn case(this: Self) -> (c: ()) {
        ()
    }

    fn uncase(c: ()) -> (this: Self) {
        None
    }
}

impl<T> Case<1> for Option<T> {
    type Case = T;

    open spec fn payload(this: Self) -> T {
        this->0
    }

    open spec fn inject(c: T) -> Self {
        Some(c)
    }

    proof fn payload_inject(this: Self) {
    }

    fn case(this: Self) -> (c: T) {
        match this {
            Some(v) => v,
            None => vstd::pervasive::unreached(),
        }
    }

    fn uncase(c: T) -> (this: Self) {
        Some(c)
    }
}

impl<T, E> Match for Result<T, E> {
    type Range = Exhaustive<2>;

    open spec fn tag_spec(&self) -> Option<usize> {
        match *self {
            Ok(_) => Some(0),
            Err(_) => Some(1),
        }
    }

    fn tag(&self) -> (t: Option<usize>) {
        match self {
            Ok(_) => Some(0),
            Err(_) => Some(1),
        }
    }
}

impl<T, E> Case<0> for Result<T, E> {
    type Case = T;

    open spec fn payload(this: Self) -> T {
        this->Ok_0
    }

    open spec fn inject(c: T) -> Self {
        Ok(c)
    }

    proof fn payload_inject(this: Self) {
    }

    fn case(this: Self) -> (c: T) {
        match this {
            Ok(v) => v,
            Err(_) => vstd::pervasive::unreached(),
        }
    }

    fn uncase(c: T) -> (this: Self) {
        Ok(c)
    }
}

impl<T, E> Case<1> for Result<T, E> {
    type Case = E;

    open spec fn payload(this: Self) -> E {
        this->Err_0
    }

    open spec fn inject(c: E) -> Self {
        Err(c)
    }

    proof fn payload_inject(this: Self) {
    }

    fn case(this: Self) -> (c: E) {
        match this {
            Ok(_) => vstd::pervasive::unreached(),
            Err(e) => e,
        }
    }

    fn uncase(c: E) -> (this: Self) {
        Err(c)
    }
}

} // verus!
