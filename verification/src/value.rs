//! Values.
use vstd::prelude::*;

use crate::asset;
use crate::group::Element;

verus! {

/// An amount of an asset.
#[derive(Clone, Copy, Debug, PartialEq, Eq)]
pub struct Value {
    pub amount: u64,
    pub asset_id: asset::Id,
}

/// A commitment to a value.
#[derive(Clone, Copy, Debug, PartialEq, Eq)]
pub struct Commitment(pub Element);

} // verus!
