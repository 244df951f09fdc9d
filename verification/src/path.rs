//! Choosing how generated code names this library.
//!
//! Generated code must refer to the library by an absolute path that works
//! from wherever the expansion happens: inside the library itself, inside
//! its documentation tests, or inside a dependent crate that may have
//! renamed it.  The lookup of the crate name in the build environment is an
//! outside concern; the decision taken on its result is made here.

use vstd::prelude::*;

verus! {

/// The result of looking this library up in the dependent crate's build
/// metadata.
#[derive(Debug)]
pub enum CrateLookup {
    /// The expanding crate is this library itself.
    Itself,
    /// The lookup failed; no metadata was available.
    Unknown,
    /// The library is a dependency, under the given (possibly renamed)
    /// name.
    Named(String),
}

/// How generated code refers to the library.
#[derive(Debug)]
pub enum PathPlan {
    /// Through the library's own re-export of itself: used when the
    /// expansion happens inside the library's own crate.
    SelfReexport,
    /// Through the library's canonical absolute name.
    Absolute,
    /// Through the absolute name the dependent crate knows it by.
    Renamed(String),
}

/// Decide the path by which generated code names the library, from the
/// metadata lookup and from whether the crate being compiled is the
/// library itself.  A lookup that reports the library itself still yields
/// the canonical absolute name unless the compiled crate really is the
/// library — documentation tests compile as separate crates.
pub fn vesta_path_choice(lookup: CrateLookup, env_crate_is_vesta: bool) -> (p: PathPlan)
    ensures
        match lookup {
            CrateLookup::Itself => if env_crate_is_vesta {
                p is SelfReexport
            } else {
                p is Absolute
            },
            CrateLookup::Unknown => p is Absolute,
            CrateLookup::Named(name) => p matches PathPlan::Renamed(n) && n@ == name@,
        },
{
    match lookup {
        CrateLookup::Itself => {
            if env_crate_is_vesta {
                PathPlan::SelfReexport
            } else {
                PathPlan::Absolute
            }
        },
        CrateLookup::Unknown => PathPlan::Absolute,
        CrateLookup::Named(name) => PathPlan::Renamed(name),
    }
}

} // verus!
