//! Address-space helpers.

use vstd::prelude::*;

verus! {

/// The first address of kernel space on x64 Windows: addresses at or above
/// it belong to the kernel.
pub const KERNEL_RANGE_START: u64 = 0xFFFF_8000_0000_0000;

pub open spec fn is_user_address(addr: u64) -> bool {
    addr < KERNEL_RANGE_START
}

/// The user-space addresses of `s`, in their order.
pub open spec fn user_addresses(s: Seq<u64>) -> Seq<u64>
    decreases s.len(),
{
    if s.len() == 0 {
        s
    } else if is_user_address(s.last()) {
        user_addresses(s.drop_last()).push(s.last())
    } else {
        user_addresses(s.drop_last())
    }
}

/// Removes the kernel-space addresses from `addresses`, keeping the others
/// in their order.
pub fn filter_kernel_addresses(addresses: &mut Vec<u64>)
    ensures
        final(addresses)@ == user_addresses(old(addresses)@),
{
    let mut kept: Vec<u64> = Vec::new();
    let n = addresses.len();
    let mut i: usize = 0;
    while i < n
        invariant
            n == addresses@.len(),
            addresses@ == old(addresses)@,
            i <= n,
            kept@ == user_addresses(addresses@.take(i as int)),
        decreases n - i,
    {
        let addr = addresses[i];
        assert(addresses@.take(i + 1).drop_last() =~= addresses@.take(i as int));
        if addr < KERNEL_RANGE_START {
            kept.push(addr);
        }
        i = i + 1;
    }
    assert(addresses@.take(n as int) =~= addresses@);
    *addresses = kept;
}

/// Every address that the filter keeps is a user-space address.
pub proof fn lemma_user_addresses_are_user(s: Seq<u64>)
    ensures
        forall|i: int| 0 <= i < user_addresses(s).len() ==> is_user_address(#[trigger] user_addresses(s)[i]),
    decreases s.len(),
{
    if s.len() > 0 {
        lemma_user_addresses_are_user(s.drop_last());
        let r = user_addresses(s.drop_last());
        if is_user_address(s.last()) {
            assert forall|i: int| 0 <= i < r.push(s.last()).len() implies is_user_address(
                #[trigger] r.push(s.last())[i],
            ) by {
                if i < r.len() {
                    assert(r.push(s.last())[i] == r[i]);
                }
            }
        }
    }
}

/// Every user-space address of the input is kept.
pub proof fn lemma_user_addresses_keep_user(s: Seq<u64>)
    ensures
        forall|i: int| 0 <= i < s.len() && is_user_address(#[trigger] s[i]) ==> user_addresses(s).contains(s[i]),
    decreases s.len(),
{
    if s.len() > 0 {
        lemma_user_addresses_keep_user(s.drop_last());
        assert forall|i: int| 0 <= i < s.len() && is_user_address(#[trigger] s[i]) implies user_addresses(s).contains(s[i]) by {
            if i < s.len() - 1 {
                assert(s.drop_last()[i] == s[i]);
                let r = user_addresses(s.drop_last());
                assert(r.contains(s[i]));
                let j = choose|j: int| 0 <= j < r.len() && r[j] == s[i];
                if is_user_address(s.last()) {
                    assert(r.push(s.last())[j] == s[i]);
                }
            } else {
                let r = user_addresses(s.drop_last());
                assert(r.push(s.last())[r.len() as int] == s[i]);
            }
        }
    }
}

/// Filtering a second time changes nothing.
pub proof fn lemma_user_addresses_idempotent(s: Seq<u64>)
    ensures
        user_addresses(user_addresses(s)) == user_addresses(s),
    decreases s.len(),
{
    if s.len() > 0 {
        lemma_user_addresses_idempotent(s.drop_last());
        let r = user_addresses(s.drop_last());
        if is_user_address(s.last()) {
            assert(r.push(s.last()).drop_last() =~= r);
        }
    }
}

/// The filter never makes a stack longer.
pub proof fn lemma_user_addresses_len(s: Seq<u64>)
    ensures
        user_addresses(s).len() <= s.len(),
    decreases s.len(),
{
    if s.len() > 0 {
        lemma_user_addresses_len(s.drop_last());
    }
}

} // verus!
