//! Verified slice algorithms on integer data: sorting, summing, doubling,
//! and finding extremes.

use vstd::prelude::*;
use vstd::pervasive::VecAdditionalExecFns;

verus! {

/// The sum of a sequence of machine integers, as a mathematical integer.
pub open spec fn sum_i32(s: Seq<i32>) -> int
    decreases s.len(),
{
    if s.len() == 0 {
        0
    } else {
        sum_i32(s.drop_last()) + s.last()
    }
}

/// Ascending order.
pub open spec fn sorted_i32(s: Seq<i32>) -> bool {
    forall|a: int, b: int| 0 <= a <= b < s.len() ==> s[a] <= s[b]
}

/// Sorts in place in ascending order; the result is a permutation of the
/// input.
pub fn bubble_sort(arr: &mut Vec<i32>)
    ensures
        final(arr)@.to_multiset() == old(arr)@.to_multiset(),
        sorted_i32(final(arr)@),
        final(arr)@.len() == old(arr)@.len(),
{
    let n = arr.len();
    let mut i: usize = 0;
    while i < n
        invariant
            i <= n,
            n == arr@.len(),
            arr@.to_multiset() == old(arr)@.to_multiset(),
            forall|a: int, b: int| n - i <= a <= b < n ==> arr@[a] <= arr@[b],
            forall|a: int, b: int| 0 <= a < n - i && n - i <= b < n ==> arr@[a] <= arr@[b],
        decreases n - i,
    {
        let mut j: usize = 0;
        while j < n - 1 - i
            invariant
                i < n,
                j <= n - 1 - i,
                n == arr@.len(),
                arr@.to_multiset() == old(arr)@.to_multiset(),
                forall|a: int, b: int| n - i <= a <= b < n ==> arr@[a] <= arr@[b],
                forall|a: int, b: int|
                    0 <= a < n - i && n - i <= b < n ==> arr@[a] <= arr@[b],
                forall|t: int| 0 <= t < j ==> arr@[t] <= arr@[j as int],
            decreases n - 1 - i - j,
        {
            if arr[j] > arr[j + 1] {
                let ghost before = arr@;
                let x = arr[j];
                let y = arr[j + 1];
                arr.set(j, y);
                arr.set(j + 1, x);
                proof {
                    broadcast use vstd::seq_lib::group_to_multiset_ensures;
                    broadcast use vstd::multiset::group_multiset_axioms;

                    assert(arr@ =~= before.update(j as int, before[j + 1]).update(
                        j + 1,
                        before[j as int],
                    ));
                    assert(arr@.to_multiset() =~= before.to_multiset());
                }
            }
            j = j + 1;
        }
        i = i + 1;
    }
}

/// Sums a vector of integers. Every prefix sum must stay in `i32` range,
/// as it does in the running accumulator.
pub fn calculate_sum(numbers: &Vec<i32>) -> (r: i32)
    requires
        forall|i: int|
            0 <= i <= numbers@.len() ==> i32::MIN <= sum_i32(#[trigger] numbers@.take(i))
                <= i32::MAX,
    ensures
        r == sum_i32(numbers@),
{
    calculate_sum_slice(numbers.as_slice())
}

/// Sums a slice of integers, under the same range condition.
pub fn calculate_sum_slice(slice: &[i32]) -> (r: i32)
    requires
        forall|i: int|
            0 <= i <= slice@.len() ==> i32::MIN <= sum_i32(#[trigger] slice@.take(i))
                <= i32::MAX,
    ensures
        r == sum_i32(slice@),
{
    let n = slice.len();
    let mut r: i32 = 0;
    let mut i: usize = 0;
    proof {
        assert(slice@.take(0) =~= Seq::<i32>::empty());
    }
    while i < n
        invariant
            i <= n,
            n == slice@.len(),
            r == sum_i32(slice@.take(i as int)),
            forall|k: int|
                0 <= k <= slice@.len() ==> i32::MIN <= sum_i32(#[trigger] slice@.take(k))
                    <= i32::MAX,
        decreases n - i,
    {
        let ghost before = slice@.take(i as int);
        proof {
            let now = slice@.take(i + 1);
            assert(now.drop_last() =~= before);
            assert(now.last() == slice@[i as int]);
        }
        r = r + slice[i];
        i = i + 1;
    }
    proof {
        assert(slice@.take(n as int) =~= slice@);
    }
    r
}

/// Doubles every element in place.
pub fn double_values(numbers: &mut Vec<i32>)
    requires
        forall|i: int|
            0 <= i < old(numbers)@.len() ==> i32::MIN <= 2 * (#[trigger] old(
                numbers,
            )@[i]) <= i32::MAX,
    ensures
        final(numbers)@.len() == old(numbers)@.len(),
        forall|i: int|
            0 <= i < old(numbers)@.len() ==> final(numbers)@[i] == 2 * old(numbers)@[i],
{
    let n = numbers.len();
    let mut i: usize = 0;
    while i < n
        invariant
            i <= n,
            n == numbers@.len(),
            n == old(numbers)@.len(),
            forall|k: int|
                0 <= k < old(numbers)@.len() ==> i32::MIN <= 2 * (#[trigger] old(
                    numbers,
                )@[k]) <= i32::MAX,
            forall|k: int| 0 <= k < i ==> numbers@[k] == 2 * old(numbers)@[k],
            forall|k: int| i <= k < n ==> numbers@[k] == old(numbers)@[k],
        decreases n - i,
    {
        let v = numbers[i];
        numbers.set(i, 2 * v);
        i = i + 1;
    }
}

/// The greatest element of a slice, or `None` when it is empty.
pub fn find_max(slice: &[i32]) -> (r: Option<i32>)
    ensures
        match r {
            None => slice@.len() == 0,
            Some(m) => slice@.contains(m) && forall|i: int|
                0 <= i < slice@.len() ==> slice@[i] <= m,
        },
{
    let n = slice.len();
    if n == 0 {
        return None;
    }
    let mut m = slice[0];
    let mut i: usize = 1;
    while i < n
        invariant
            1 <= i <= n,
            n == slice@.len(),
            slice@.contains(m),
            forall|k: int| 0 <= k < i ==> slice@[k] <= m,
        decreases n - i,
    {
        if slice[i] > m {
            m = slice[i];
        }
        i = i + 1;
    }
    Some(m)
}

/// The least element of a slice, or `None` when it is empty.
pub fn find_min(slice: &[i32]) -> (r: Option<i32>)
    ensures
        match r {
            None => slice@.len() == 0,
            Some(m) => slice@.contains(m) && forall|i: int|
                0 <= i < slice@.len() ==> m <= slice@[i],
        },
{
    let n = slice.len();
    if n == 0 {
        return None;
    }
    let mut m = slice[0];
    let mut i: usize = 1;
    while i < n
        invariant
            1 <= i <= n,
            n == slice@.len(),
            slice@.contains(m),
            forall|k: int| 0 <= k < i ==> m <= slice@[k],
        decreases n - i,
    {
        if slice[i] < m {
            m = slice[i];
        }
        i = i + 1;
    }
    Some(m)
}

/// The greatest element of a non-empty slice.
pub fn largest(list: &[i32]) -> (r: i32)
    requires
        list@.len() > 0,
    ensures
        list@.contains(r),
        forall|i: int| 0 <= i < list@.len() ==> list@[i] <= r,
{
    let mut r = list[0];
    let n = list.len();
    let mut i: usize = 1;
    while i < n
        invariant
            1 <= i <= n,
            n == list@.len(),
            list@.contains(r),
            forall|k: int| 0 <= k < i ==> list@[k] <= r,
        decreases n - i,
    {
        if list[i] > r {
            r = list[i];
        }
        i = i + 1;
    }
    r
}

} // verus!
