//! Assignment of each fine vertex to its nearest coarse vertex.
//!
//! Distances reach this module as `u32` keys that order as the squared
//! distances do: the bit patterns of non-negative `f32` values have that
//! property, and a NaN pattern sorts after every number.
use vstd::prelude::*;

use crate::GraphError;

verus! {

/// `g` indexes a smallest key of `keys`, and no earlier key is as small.
pub open spec fn is_first_nearest(keys: Seq<u32>, g: int) -> bool {
    &&& 0 <= g < keys.len()
    &&& forall|k: int| 0 <= k < keys.len() ==> keys[g] <= #[trigger] keys[k]
    &&& forall|k: int| 0 <= k < g ==> keys[g] < #[trigger] keys[k]
}

/// Picks the coarse vertex nearest to a fine vertex, given the distance key
/// to each coarse vertex in index order. A tie goes to the lowest index;
/// with no coarse vertex at all the answer is 0.
pub fn nearest_group(keys: &Vec<u32>) -> (g: u32)
    requires
        keys@.len() <= u32::MAX,
    ensures
        keys@.len() == 0 ==> g == 0,
        keys@.len() > 0 ==> is_first_nearest(keys@, g as int),
{
    if keys.len() == 0 {
        return 0;
    }
    let mut best: usize = 0;
    let mut j: usize = 1;
    while j < keys.len()
        invariant
            keys@.len() <= u32::MAX,
            1 <= j <= keys@.len(),
            best < j,
            forall|k: int| 0 <= k < j ==> keys@[best as int] <= #[trigger] keys@[k],
            forall|k: int| 0 <= k < best ==> keys@[best as int] < #[trigger] keys@[k],
        decreases keys@.len() - j,
    {
        if keys[j] < keys[best] {
            best = j;
        }
        j = j + 1;
    }
    best as u32
}

/// Checks that the coarse mesh has strictly fewer vertices than the fine one.
pub fn check_coarse_smaller(n_fine: usize, n_coarse: usize) -> (r: Result<(), GraphError>)
    ensures
        n_coarse < n_fine <==> r is Ok,
        r is Err ==> r == Err::<(), GraphError>(GraphError::CoarseNotSmaller),
{
    if n_coarse < n_fine {
        Ok(())
    } else {
        Err(GraphError::CoarseNotSmaller)
    }
}

} // verus!
