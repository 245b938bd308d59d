//! Assets.
use vstd::prelude::*;

use crate::field::Fq;

verus! {

/// What tells one asset from another.
#[derive(Clone, Copy, Debug, PartialEq, Eq, Hash)]
pub struct Id(pub Fq);

} // verus!
