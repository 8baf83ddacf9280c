use vstd::prelude::*;

verus! {

/// The priority with which identifiers are given to the nodes of a scene.
pub const GEODE_ID_PRIORITY: i32 = 0x100000;

} // verus!
