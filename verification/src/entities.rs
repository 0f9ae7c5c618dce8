//! Entity component schemas shared over the network: plain value objects
//! with no behaviour of their own. Only the skin variant lives here; the
//! float-bearing tag payload belongs to the unverified edge around the
//! library.

use vstd::prelude::*;

verus! {

/// How an entity is skinned: a generic default, a fixed named skin, or none
/// at all.
#[derive(Clone, Debug)]
pub enum EntitySkinData {
    Generic,
    Fixed(String),
    Absent,
}

} // verus!
