//! Merge sort over numeric slices: the result is sorted and holds
//! exactly the input's elements.

use vstd::prelude::*;

verus! {

use vstd::slice::slice_subrange;

/// Nondecreasing order.
pub open spec fn sorted(s: Seq<i32>) -> bool {
    forall|i: int, j: int| 0 <= i < j < s.len() ==> s[i] <= s[j]
}

/// Merges two sorted slices into one sorted vector holding exactly the
/// elements of both.
pub fn merge(a: &[i32], b: &[i32]) -> (r: Vec<i32>)
    requires
        sorted(a@),
        sorted(b@),
    ensures
        sorted(r@),
        r@.to_multiset() == a@.to_multiset().add(b@.to_multiset()),
        r@.len() == a@.len() + b@.len(),
{
    broadcast use vstd::seq_lib::group_to_multiset_ensures;

    let mut dest: Vec<i32> = Vec::new();
    let mut a_idx: usize = 0;
    let mut b_idx: usize = 0;

    while a_idx < a.len() && b_idx < b.len()
        invariant
            a_idx <= a@.len(),
            b_idx <= b@.len(),
            sorted(a@),
            sorted(b@),
            sorted(dest@),
            dest@.len() == a_idx + b_idx,
            dest@.to_multiset() =~= a@.take(a_idx as int).to_multiset().add(
                b@.take(b_idx as int).to_multiset(),
            ),
            forall|i: int, j: int|
                0 <= i < dest@.len() && a_idx <= j < a@.len() ==> dest@[i] <= a@[j],
            forall|i: int, j: int|
                0 <= i < dest@.len() && b_idx <= j < b@.len() ==> dest@[i] <= b@[j],
        decreases a@.len() - a_idx + b@.len() - b_idx,
    {
        if a[a_idx] <= b[b_idx] {
            let ghost d0 = dest@;
            let x = a[a_idx];
            dest.push(x);
            proof {
                assert(a@.take(a_idx as int + 1) =~= a@.take(a_idx as int).push(a@[a_idx as int]));
                assert(dest@ =~= d0.push(x));
                vstd::seq_lib::to_multiset_build::<i32>(d0, x);
                vstd::seq_lib::to_multiset_build::<i32>(a@.take(a_idx as int), x);
                assert(d0.to_multiset().insert(x) =~= a@.take(a_idx as int).to_multiset().insert(
                    x,
                ).add(b@.take(b_idx as int).to_multiset()));
            }
            a_idx += 1;
        } else {
            let ghost d0 = dest@;
            let x = b[b_idx];
            dest.push(x);
            proof {
                assert(b@.take(b_idx as int + 1) =~= b@.take(b_idx as int).push(b@[b_idx as int]));
                assert(dest@ =~= d0.push(x));
                vstd::seq_lib::to_multiset_build::<i32>(d0, x);
                vstd::seq_lib::to_multiset_build::<i32>(b@.take(b_idx as int), x);
                assert(d0.to_multiset().insert(x) =~= a@.take(a_idx as int).to_multiset().add(
                    b@.take(b_idx as int).to_multiset().insert(x),
                ));
            }
            b_idx += 1;
        }
    }

    while a_idx < a.len()
        invariant
            a_idx <= a@.len(),
            b_idx == b@.len() || a_idx == a@.len(),
            b_idx <= b@.len(),
            sorted(a@),
            sorted(dest@),
            dest@.len() == a_idx + b_idx,
            dest@.to_multiset() =~= a@.take(a_idx as int).to_multiset().add(
                b@.take(b_idx as int).to_multiset(),
            ),
            forall|i: int, j: int|
                0 <= i < dest@.len() && a_idx <= j < a@.len() ==> dest@[i] <= a@[j],
            forall|i: int, j: int|
                0 <= i < dest@.len() && b_idx <= j < b@.len() ==> dest@[i] <= b@[j],
        decreases a@.len() - a_idx,
    {
        let ghost d0 = dest@;
        let x = a[a_idx];
        dest.push(x);
        proof {
            assert(a@.take(a_idx as int + 1) =~= a@.take(a_idx as int).push(a@[a_idx as int]));
            assert(dest@ =~= d0.push(x));
            vstd::seq_lib::to_multiset_build::<i32>(d0, x);
            vstd::seq_lib::to_multiset_build::<i32>(a@.take(a_idx as int), x);
            assert(d0.to_multiset().insert(x) =~= a@.take(a_idx as int).to_multiset().insert(
                x,
            ).add(b@.take(b_idx as int).to_multiset()));
        }
        a_idx += 1;
    }

    while b_idx < b.len()
        invariant
            a_idx == a@.len(),
            b_idx <= b@.len(),
            sorted(b@),
            sorted(dest@),
            dest@.len() == a_idx + b_idx,
            dest@.to_multiset() =~= a@.take(a_idx as int).to_multiset().add(
                b@.take(b_idx as int).to_multiset(),
            ),
            forall|i: int, j: int|
                0 <= i < dest@.len() && b_idx <= j < b@.len() ==> dest@[i] <= b@[j],
        decreases b@.len() - b_idx,
    {
        let ghost d0 = dest@;
        let x = b[b_idx];
        dest.push(x);
        proof {
            assert(b@.take(b_idx as int + 1) =~= b@.take(b_idx as int).push(b@[b_idx as int]));
            assert(dest@ =~= d0.push(x));
            vstd::seq_lib::to_multiset_build::<i32>(d0, x);
            vstd::seq_lib::to_multiset_build::<i32>(b@.take(b_idx as int), x);
            assert(d0.to_multiset().insert(x) =~= a@.take(a_idx as int).to_multiset().add(
                b@.take(b_idx as int).to_multiset().insert(x),
            ));
        }
        b_idx += 1;
    }

    proof {
        assert(a@.take(a@.len() as int) =~= a@);
        assert(b@.take(b@.len() as int) =~= b@);
    }
    dest
}

/// Sorts a slice into a fresh vector holding exactly its elements.
pub fn merge_sort(data: &[i32]) -> (r: Vec<i32>)
    ensures
        sorted(r@),
        r@.to_multiset() == data@.to_multiset(),
        r@.len() == data@.len(),
    decreases data@.len(),
{
    broadcast use vstd::seq_lib::group_to_multiset_ensures;

    if data.len() > 1 {
        let mid = data.len() / 2;
        let left = slice_subrange(data, 0, mid);
        let right = slice_subrange(data, mid, data.len());
        let ls = merge_sort(left);
        let rs = merge_sort(right);
        let r = merge(ls.as_slice(), rs.as_slice());
        proof {
            vstd::seq_lib::lemma_multiset_commutative(left@, right@);
            assert(left@ + right@ =~= data@);
        }
        r
    } else {
        let mut out: Vec<i32> = Vec::new();
        if data.len() == 1 {
            out.push(data[0]);
            proof {
                assert(out@ =~= data@);
            }
        } else {
            proof {
                assert(out@ =~= data@);
            }
        }
        out
    }
}

} // verus!
