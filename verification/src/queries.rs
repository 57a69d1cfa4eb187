//! Read-only views: paginated order and activity listings, and point lookups
//! by position. Pagination reads backward from the highest sequence number,
//! skipping `page * page_size` entries and returning up to `page_size`; a page
//! beyond the data is empty, not an error.

use vstd::prelude::*;
use crate::errors::Error;
use crate::exchange::Exchange;
use crate::padding::PREFIX_CANCEL_RECORDS;
use crate::state::{ActivityRecord, Order};

verus! {

/// One page of `s`, read backward from its last entry: entry `i` of the page
/// is `s[s.len() - 1 - page * page_size - i]`, and the page ends at the start
/// of `s` or after `page_size` entries, whichever comes first.
pub open spec fn page_of<T>(s: Seq<T>, page: int, page_size: int) -> Seq<T> {
    let skip = page * page_size;
    if page_size <= 0 || skip >= s.len() {
        Seq::empty()
    } else {
        let highest = s.len() - 1 - skip;
        let count = if page_size <= highest + 1 {
            page_size
        } else {
            highest + 1
        };
        Seq::new(count as nat, |i: int| s[highest - i])
    }
}

/// One page of a vector, read backward; see [`page_of`].
fn paginate_desc<T: Copy>(v: &Vec<T>, page: u64, page_size: u64) -> (r: Vec<T>)
    ensures
        r@ == page_of(v@, page as int, page_size as int),
{
    let total = v.len();
    let mut out: Vec<T> = Vec::new();
    proof {
        vstd::arithmetic::mul::lemma_mul_upper_bound(
            page as int,
            u64::MAX as int,
            page_size as int,
            u64::MAX as int,
        );
    }
    let skip: u128 = page as u128 * page_size as u128;
    if page_size == 0 || skip >= total as u128 {
        proof {
            assert(out@ =~= page_of(v@, page as int, page_size as int));
        }
        return out;
    }
    let skip = skip as usize;
    let highest = total - 1 - skip;
    let count: usize = if (page_size as u128) <= (highest as u128) + 1 {
        page_size as usize
    } else {
        highest + 1
    };
    let mut i: usize = 0;
    while i < count
        invariant
            i <= count,
            count <= highest + 1,
            highest < v@.len(),
            out@.len() == i,
            forall|j: int| 0 <= j < i ==> out@[j] == v@[highest - j],
        decreases count - i,
    {
        out.push(v[highest - i]);
        i += 1;
    }
    proof {
        assert(out@ =~= page_of(v@, page as int, page_size as int));
    }
    out
}

impl Exchange {
    /// The activity log that a storage-prefix tag addresses.
    pub open spec fn activity_log(self, storage_prefix: u8) -> Seq<ActivityRecord> {
        if storage_prefix == PREFIX_CANCEL_RECORDS {
            self.cancel_records@
        } else {
            self.fill_records@
        }
    }

    /// One backward page of an account's orders, together with the account's
    /// total order count.
    pub fn get_orders(&self, for_address: u64, page: u64, page_size: u64) -> (r: (Vec<Order>, u64))
        ensures
            r.0@ == page_of(self.ns(for_address), page as int, page_size as int),
            r.1 == self.ns(for_address).len(),
    {
        match self.orders.get(&for_address) {
            Some(v) => {
                let total = v.len() as u64;
                (paginate_desc(v, page, page_size), total)
            },
            None => {
                proof {
                    assert(Seq::<Order>::empty() =~= page_of(
                        self.ns(for_address),
                        page as int,
                        page_size as int,
                    ));
                }
                (Vec::new(), 0)
            },
        }
    }

    /// One backward page of an activity log, together with the log's total
    /// length.
    pub fn get_activity_records(&self, page: u64, page_size: u64, storage_prefix: u8) -> (r: (
        Vec<ActivityRecord>,
        u64,
    ))
        ensures
            r.0@ == page_of(self.activity_log(storage_prefix), page as int, page_size as int),
            r.1 == self.activity_log(storage_prefix).len(),
    {
        let records = if storage_prefix == PREFIX_CANCEL_RECORDS {
            &self.cancel_records
        } else {
            &self.fill_records
        };
        let total = records.len() as u64;
        (paginate_desc(records, page, page_size), total)
    }

    /// The account's orders at exactly the requested positions, in the
    /// requested order; any missing position fails the whole lookup.
    pub fn orders_by_positions(&self, address: u64, positions: &Vec<u64>) -> (r: Result<
        Vec<Order>,
        Error,
    >)
        ensures
            match r {
                Ok(found) => {
                    &&& found@.len() == positions@.len()
                    &&& forall|i: int|
                        0 <= i < positions@.len() ==> (#[trigger] positions@[i])
                            < self.ns(address).len() && found@[i] == self.ns(address)[positions@[i] as int]
                },
                Err(e) => {
                    &&& e == Error::OrderNotFound
                    &&& exists|i: int|
                        0 <= i < positions@.len() && (#[trigger] positions@[i])
                            >= self.ns(address).len()
                },
            },
    {
        let mut found: Vec<Order> = Vec::new();
        let mut i: usize = 0;
        while i < positions.len()
            invariant
                i <= positions@.len(),
                found@.len() == i,
                forall|j: int|
                    0 <= j < i ==> (#[trigger] positions@[j]) < self.ns(address).len() && found@[j]
                        == self.ns(address)[positions@[j] as int],
            decreases positions@.len() - i,
        {
            match self.order_at_position(address, positions[i]) {
                Ok(o) => {
                    found.push(o);
                },
                Err(e) => {
                    return Err(e);
                },
            }
            i += 1;
        }
        Ok(found)
    }
}

} // verus!
