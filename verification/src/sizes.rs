//! Sums of sizes.
use vstd::prelude::*;

verus! {

/// The sum of `sizes`.
pub open spec fn sum(sizes: Seq<u64>) -> nat
    decreases sizes.len(),
{
    if sizes.len() == 0 {
        0
    } else {
        sum(sizes.drop_last()) + sizes.last() as nat
    }
}

/// The sum of the first sizes grows by each that is added, and stays within the
/// sum of all.
pub proof fn lemma_sum_grows(sizes: Seq<u64>, n: int)
    requires
        0 <= n < sizes.len(),
    ensures
        sum(sizes.take(n + 1)) == sum(sizes.take(n)) + sizes[n],
        sum(sizes.take(n + 1)) <= sum(sizes),
    decreases sizes.len(),
{
    let more = sizes.take(n + 1);
    assert(more.drop_last() =~= sizes.take(n));
    if n + 1 < sizes.len() {
        lemma_sum_grows(sizes.drop_last(), n);
        assert(sizes.drop_last().take(n + 1) =~= more);
    } else {
        assert(more =~= sizes);
    }
}

/// The sum of `sizes`, or `None` where it is too large to count.
pub fn sum_up(sizes: &Vec<u64>) -> (r: Option<u64>)
    ensures
        r is Some <==> sum(sizes@) <= u64::MAX,
        r matches Some(n) ==> n as nat == sum(sizes@),
{
    let mut total: u64 = 0;
    let mut i: usize = 0;
    while i < sizes.len()
        invariant
            i <= sizes@.len(),
            total as nat == sum(sizes@.take(i as int)),
        decreases sizes@.len() - i,
    {
        proof {
            lemma_sum_grows(sizes@, i as int);
        }
        if sizes[i] > u64::MAX - total {
            return None;
        }
        total = total + sizes[i];
        i = i + 1;
    }
    assert(sizes@.take(i as int) =~= sizes@);
    Some(total)
}

/// A sum is given exactly where it can be counted, and grows by each size that is
/// added.
pub proof fn law_sums_grow_size_by_size(sizes: &Vec<u64>, r: Option<u64>, rest: Seq<u64>, size: u64)
    requires
        call_ensures(sum_up, (sizes,), r),
    ensures
        sizes@.len() == 0 ==> r == Some(0u64),
        sizes@ == rest.push(size) && sum(rest) + size <= u64::MAX ==> r is Some && r->0
            == sum(rest) + size,
        sizes@ == rest.push(size) && sum(rest) + size > u64::MAX ==> r is None,
{
    assert(rest.push(size).drop_last() =~= rest);
}

}
