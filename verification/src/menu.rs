//! The order of the entries of a menu.

use vstd::prelude::*;

verus! {

/// The weight by which an entry is ordered: its own, and the largest weight
/// where it has none, so that it comes last.
pub open spec fn spec_weight(weight: Option<i64>) -> i64 {
    match weight {
        Some(w) => w,
        None => i64::MAX,
    }
}

/// Whether `order` lists the places of `weights` by rising weight, entries
/// of one weight in the order of `weights`.
pub open spec fn is_order_by_weight(weights: Seq<Option<i64>>, order: Seq<usize>) -> bool {
    &&& order.len() == weights.len()
    &&& forall|k: int| 0 <= k < order.len() ==> #[trigger] order[k] < weights.len()
    &&& forall|k: int, l: int|
        0 <= k < l < order.len() ==> spec_weight(weights[#[trigger] order[k] as int])
            < spec_weight(weights[#[trigger] order[l] as int]) || (spec_weight(
            weights[order[k] as int],
        ) == spec_weight(weights[order[l] as int]) && order[k] < order[l])
}

fn weight_of(weight: &Option<i64>) -> (w: i64)
    ensures
        w == spec_weight(*weight),
{
    match weight {
        Some(w) => *w,
        None => i64::MAX,
    }
}

/// The places of the entries of a menu in the order in which they are
/// shown: by rising weight, an entry without weight last, entries of one
/// weight in the order in which they were given.
pub fn order_by_weight(weights: &Vec<Option<i64>>) -> (order: Vec<usize>)
    ensures
        is_order_by_weight(weights@, order@),
{
    let mut order: Vec<usize> = Vec::new();
    let mut i: usize = 0;
    while i < weights.len()
        invariant
            i <= weights.len(),
            order.len() == i,
            forall|k: int| 0 <= k < order.len() ==> #[trigger] order@[k] < i,
            forall|k: int, l: int|
                0 <= k < l < order.len() ==> spec_weight(weights@[#[trigger] order@[k] as int])
                    < spec_weight(weights@[#[trigger] order@[l] as int]) || (spec_weight(
                    weights@[order@[k] as int],
                ) == spec_weight(weights@[order@[l] as int]) && order@[k] < order@[l]),
        decreases weights.len() - i,
    {
        let own = weight_of(&weights[i]);
        let mut at: usize = order.len();
        while at > 0 && weight_of(&weights[order[at - 1]]) > own
            invariant
                at <= order.len(),
                i < weights.len(),
                own == spec_weight(weights@[i as int]),
                forall|k: int| 0 <= k < order.len() ==> #[trigger] order@[k] < i,
                forall|l: int|
                    at <= l < order.len() ==> spec_weight(weights@[#[trigger] order@[l] as int])
                        > own,
            decreases at,
        {
            at -= 1;
        }
        let ghost before = order@;
        order.insert(at, i);
        proof {
            assert forall|k: int, l: int| 0 <= k < l < order.len() implies spec_weight(
                weights@[#[trigger] order@[k] as int],
            ) < spec_weight(weights@[#[trigger] order@[l] as int]) || (spec_weight(
                weights@[order@[k] as int],
            ) == spec_weight(weights@[order@[l] as int]) && order@[k] < order@[l]) by {
                if l < at {
                    assert(order@[k] == before[k] && order@[l] == before[l]);
                } else if l == at {
                    assert(order@[k] == before[k]);
                } else if k < at {
                    assert(order@[k] == before[k] && order@[l] == before[l - 1]);
                } else if k == at {
                    assert(order@[l] == before[l - 1]);
                } else {
                    assert(order@[k] == before[k - 1] && order@[l] == before[l - 1]);
                }
            }
            assert forall|k: int| 0 <= k < order.len() implies #[trigger] order@[k] < i + 1 by {
                if k < at {
                    assert(order@[k] == before[k]);
                } else if k > at {
                    assert(order@[k] == before[k - 1]);
                }
            }
        }
        i += 1;
    }
    order
}

} // verus!
