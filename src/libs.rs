use vstd::prelude::*;

use crate::env::{chain_define, Environment};
use crate::text::text_of;
use crate::value::{Native, Val};

pub mod math;

verus! {

/// A library that a program can load into its environment.
#[derive(Debug, Clone, Copy, PartialEq, Eq, Structural)]
pub enum Library {
    Math,
}

impl Library {
    /// Binds the library's names in `env`.
    pub fn register(self, env: &mut Environment)
        requires
            old(env).wf(),
        ensures
            final(env).wf(),
            final(env).outer() == old(env).outer(),
            self == Library::Math ==> final(env).frames()
                == chain_define(old(env).frames(), "sqrt"@, Val::NativeFn(Native::Sqrt)),
    {
        match self {
            Library::Math => math::register(env),
        }
    }
}

/// The libraries by name.
pub fn get_library_registry() -> (r: Vec<(String, Library)>)
    ensures
        r@.len() == 1,
        r@[0].0@ == "math"@,
        r@[0].1 == Library::Math,
{
    let mut registry: Vec<(String, Library)> = Vec::new();
    registry.push((text_of("math"), Library::Math));
    registry
}

} // verus!
