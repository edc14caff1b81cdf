//! The environment a service runs in.

use vstd::prelude::*;

verus! {

/// Production or development.
#[derive(Debug, Clone, Copy, PartialEq, Eq, Structural)]
pub enum Env {
    Prod,
    Dev,
}

impl Env {
    pub fn is_dev(self) -> (r: bool)
        ensures
            r == (self == Env::Dev),
    {
        match self {
            Env::Dev => true,
            Env::Prod => false,
        }
    }
}

} // verus!
