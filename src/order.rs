//! Fractional ordering keys for lists and cards.
//!
//! Keys are unsigned integers. A new key is placed half way between its two
//! neighbours; when no key fits between them, the sequence is renumbered with
//! a uniform gap and the insertion is retried on the renumbered keys.
use vstd::prelude::*;

verus! {

/// Key given to the first item of an empty sequence.
pub const INITIAL_ORDER: u64 = 1000;

/// Gap between neighbouring keys after a renumbering, and the step used when
/// an item is placed before the first or after the last one.
pub const ORDER_INTERVAL: u64 = 1000;

/// Key of the item at index `i` after a renumbering.
pub open spec fn renumbered_key(i: int) -> int {
    INITIAL_ORDER as int + i * ORDER_INTERVAL as int
}

/// Key for an item placed between `before` and `after` (either may be
/// absent), or `None` when no free key exists there and the sequence must be
/// renumbered first.
pub open spec fn new_position_spec(before: Option<u64>, after: Option<u64>) -> Option<u64> {
    match (before, after) {
        (None, None) => Some(INITIAL_ORDER),
        (None, Some(a)) => if a > ORDER_INTERVAL {
            Some((a - ORDER_INTERVAL) as u64)
        } else {
            None
        },
        (Some(b), None) => if b as int + ORDER_INTERVAL as int <= u64::MAX as int {
            Some((b + ORDER_INTERVAL) as u64)
        } else {
            None
        },
        (Some(b), Some(a)) => if (b < a && a - b >= 2) || (a < b && b - a >= 2) {
            Some(((b as int + a as int) / 2) as u64)
        } else {
            None
        },
    }
}

/// Between two keys `before < after` a new key lies strictly between them
/// exactly when they are at least 2 apart; otherwise none fits and the
/// sequence has to be renumbered.
pub proof fn lemma_new_position_between(before: u64, after: u64)
    requires
        before < after,
    ensures
        after - before >= 2 ==> new_position_spec(Some(before), Some(after)) is Some
            && before < new_position_spec(Some(before), Some(after)).unwrap()
            && new_position_spec(Some(before), Some(after)).unwrap() < after,
        after - before < 2 ==> new_position_spec(Some(before), Some(after)) is None,
{
}

/// After a renumbering the keys start at `INITIAL_ORDER` and rise by
/// `ORDER_INTERVAL` from one item to the next.
pub proof fn lemma_renumbered_uniform(i: int)
    requires
        i >= 0,
    ensures
        renumbered_key(0) == INITIAL_ORDER,
        renumbered_key(i + 1) - renumbered_key(i) == ORDER_INTERVAL,
{
    assert(renumbered_key(i + 1) - renumbered_key(i) == ORDER_INTERVAL) by (nonlinear_arith);
}

/// Stateless manager of ordering keys.
#[derive(Debug, Default)]
pub struct SimpleOrderManager;

impl SimpleOrderManager {
    /// Key for an item inserted between `before_order` and `after_order`:
    /// their midpoint when it differs from both (in either order of the
    /// two), a step below or above a single neighbour, `INITIAL_ORDER`
    /// without neighbours. `None` means the neighbours leave no room: call
    /// `reorder_and_insert`.
    pub fn calculate_new_position(&self, before_order: Option<u64>, after_order: Option<u64>) -> (r:
        Option<u64>)
        ensures
            r == new_position_spec(before_order, after_order),
            r is Some && before_order is Some && after_order is None ==> before_order.unwrap() < r.unwrap(),
            r is Some && before_order is None && after_order is Some ==> r.unwrap() < after_order.unwrap(),
            r is Some && before_order is Some && after_order is Some ==> {
                let (b, a) = (before_order.unwrap(), after_order.unwrap());
                (b < r.unwrap() < a) || (a < r.unwrap() < b)
            },
            r is Some ==> r.unwrap() > 0,
    {
        match (before_order, after_order) {
            (None, None) => Some(INITIAL_ORDER),
            (None, Some(after)) => {
                if after > ORDER_INTERVAL {
                    Some(after - ORDER_INTERVAL)
                } else {
                    None
                }
            },
            (Some(before), None) => {
                if before <= u64::MAX - ORDER_INTERVAL {
                    Some(before + ORDER_INTERVAL)
                } else {
                    None
                }
            },
            (Some(before), Some(after)) => {
                if before < after && after - before >= 2 {
                    Some(before + (after - before) / 2)
                } else if after < before && before - after >= 2 {
                    Some(after + (before - after) / 2)
                } else {
                    None
                }
            },
        }
    }

    /// Renumbers `orders` to `INITIAL_ORDER, INITIAL_ORDER + ORDER_INTERVAL,
    /// ...` and returns the key for an item inserted at index `index` of the
    /// renumbered sequence (before the item now at `index`). At the front the
    /// key lies half way between 0 and the first key.
    pub fn reorder_and_insert(&self, orders: &mut Vec<u64>, index: usize) -> (r: u64)
        requires
            index <= old(orders).len(),
            old(orders).len() < 1_000_000_000_000,
        ensures
            final(orders).len() == old(orders).len(),
            forall|i: int| 0 <= i < final(orders).len() ==> final(orders)[i] as int == renumbered_key(i),
            index > 0 ==> final(orders)[index - 1] < r,
            index < final(orders).len() ==> r < final(orders)[index as int],
            r > 0,
    {
        self.reorder_all(orders);
        let before = if index > 0 { Some(orders[index - 1]) } else { Some(0) };
        let after = if index < orders.len() { Some(orders[index]) } else { None };
        let r = self.calculate_new_position(before, after);
        proof {
            if index < orders.len() {
                assert(orders[index as int] as int == renumbered_key(index as int));
                assert(renumbered_key(index as int) >= INITIAL_ORDER) by (nonlinear_arith)
                    requires index >= 0;
            }
            if index > 0 {
                assert(orders[index - 1] as int == renumbered_key(index - 1));
                assert(renumbered_key(index - 1) + ORDER_INTERVAL <= u64::MAX) by (nonlinear_arith)
                    requires index <= 1_000_000_000_000;
            }
            if index > 0 && index < orders.len() {
                assert(orders[index as int] as int == renumbered_key(index as int));
                assert(orders[index - 1] as int == renumbered_key(index - 1));
                assert(renumbered_key(index as int) - renumbered_key(index - 1) == ORDER_INTERVAL) by (nonlinear_arith);
            }
        }
        match r {
            Some(p) => p,
            None => {
                // every pair of neighbours is ORDER_INTERVAL apart, so a key fits
                proof {
                    assert(false);
                }
                INITIAL_ORDER
            },
        }
    }

    /// Restores uniform spacing: after the call the `i`-th key (in ascending
    /// order) is `INITIAL_ORDER + i * ORDER_INTERVAL`.
    pub fn reorder_all(&self, orders: &mut Vec<u64>)
        requires
            old(orders).len() < 1_000_000_000_000,
        ensures
            final(orders).len() == old(orders).len(),
            forall|i: int| 0 <= i < final(orders).len() ==> final(orders)[i] as int == renumbered_key(i),
    {
        let n = orders.len();
        let mut i: usize = 0;
        let mut key: u64 = INITIAL_ORDER;
        while i < n
            invariant
                orders.len() == n,
                n < 1_000_000_000_000,
                i <= n,
                i < n ==> key as int == renumbered_key(i as int),
                forall|j: int| 0 <= j < i ==> orders[j] as int == renumbered_key(j),
            decreases n - i,
        {
            orders.set(i, key);
            i = i + 1;
            if i < n {
                assert(key as int + ORDER_INTERVAL as int == renumbered_key(i as int)) by (nonlinear_arith)
                    requires
                        key as int == renumbered_key(i - 1),
                        i < 1_000_000_000_000,
                        i >= 1,
                ;
                key = key + ORDER_INTERVAL;
            }
        }
    }
}

} // verus!
