//! Response padding, and the tags of the byte-keyed storage areas that hold
//! the activity logs. Every response is padded to a multiple of a fixed block
//! size so that its length leaks nothing about its content.

use vstd::prelude::*;

verus! {

/// Responses are padded to a multiple of this many bytes.
pub const BLOCK_SIZE: usize = 256;

/// Tag of the storage area holding cancel records.
pub const PREFIX_CANCEL_RECORDS: u8 = 0;

/// Tag of the storage area holding fill records.
pub const PREFIX_FILL_RECORDS: u8 = 1;

/// Tag of the storage area holding the count of cancel records.
pub const PREFIX_CANCEL_RECORDS_COUNT: u8 = 2;

/// Tag of the storage area holding the count of fill records.
pub const PREFIX_FILL_RECORDS_COUNT: u8 = 3;

/// The count area that belongs to an activity-record area.
pub fn prefix_activity_records_count(activity_records_storage_prefix: u8) -> (r: u8)
    ensures
        r == if activity_records_storage_prefix == PREFIX_CANCEL_RECORDS {
            PREFIX_CANCEL_RECORDS_COUNT
        } else {
            PREFIX_FILL_RECORDS_COUNT
        },
{
    if activity_records_storage_prefix == PREFIX_CANCEL_RECORDS {
        PREFIX_CANCEL_RECORDS_COUNT
    } else {
        PREFIX_FILL_RECORDS_COUNT
    }
}

/// Pads `message` up to a multiple of `block_size` with trailing spaces; a
/// message already on a block boundary is left alone.
pub fn space_pad(block_size: usize, message: &mut Vec<u8>)
    requires
        block_size > 0,
        old(message)@.len() + block_size <= usize::MAX,
    ensures
        final(message)@.len() as int % (block_size as int) == 0,
        final(message)@.len() as int == if old(message)@.len() as int % (block_size as int) == 0 {
            old(message)@.len() as int
        } else {
            old(message)@.len() + (block_size - old(message)@.len() as int % (block_size as int))
        },
        final(message)@.subrange(0, old(message)@.len() as int) == old(message)@,
        forall|i: int|
            old(message)@.len() <= i < final(message)@.len() ==> final(message)@[i] == 32u8,
{
    let len = message.len();
    let surplus = len % block_size;
    if surplus == 0 {
        proof {
            assert(message@.subrange(0, old(message)@.len() as int) =~= old(message)@);
        }
        return ;
    }
    let missing = block_size - surplus;
    let mut i: usize = 0;
    while i < missing
        invariant
            i <= missing,
            message@.len() == old(message)@.len() + i,
            message@.subrange(0, old(message)@.len() as int) =~= old(message)@,
            forall|j: int| old(message)@.len() <= j < message@.len() ==> message@[j] == 32u8,
        decreases missing - i,
    {
        message.push(32u8);
        i += 1;
        proof {
            assert(message@.subrange(0, old(message)@.len() as int) =~= old(message)@);
        }
    }
    proof {
        let bs = block_size as int;
        let l = old(message)@.len() as int;
        vstd::arithmetic::div_mod::lemma_fundamental_div_mod(l, bs);
        assert(message@.len() as int == bs * (l / bs) + bs);
        assert(bs * (l / bs) + bs == bs * (l / bs + 1)) by {
            vstd::arithmetic::mul::lemma_mul_is_distributive_add(bs, l / bs, 1);
        }
        vstd::arithmetic::div_mod::lemma_mod_multiples_basic(l / bs + 1, bs);
        assert((bs * (l / bs + 1)) % bs == 0);
    }
}

} // verus!
