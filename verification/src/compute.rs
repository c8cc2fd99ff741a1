//! The two demonstration computations: each sums the same two fixed
//! five-element sequences and then decides its outcome — one reports a local
//! error, the other a library error, exercising the conversion path.
//!
//! The second sequence is nominally fractional — `1.0, 2.0, ..., 5.0` — but
//! holds only whole numbers, so it is modeled here in whole units; callers
//! that print it as a fractional value convert the returned sum outside the
//! verified code.

use vstd::prelude::*;

use crate::errors::{convert_results, convert_spec, LibraryError, MyError};

verus! {

/// Sum of the first `k` elements of `s`.
pub open spec fn sum_prefix(s: Seq<i32>, k: int) -> int
    decreases k,
{
    if k <= 0 {
        0
    } else {
        sum_prefix(s, k - 1) + s[k - 1]
    }
}

/// Sum of all elements of `s`.
pub open spec fn seq_sum(s: Seq<i32>) -> int {
    sum_prefix(s, s.len() as int)
}

/// Sum a vector of integers by an explicit accumulation loop.
pub fn sum_i32(v: &Vec<i32>) -> (s: i32)
    requires
        forall|k: int| 0 <= k <= v@.len() ==> i32::MIN <= #[trigger] sum_prefix(v@, k) <= i32::MAX,
    ensures
        s == seq_sum(v@),
{
    let mut s: i32 = 0;
    let mut i: usize = 0;
    while i < v.len()
        invariant
            0 <= i <= v@.len(),
            s == sum_prefix(v@, i as int),
            forall|k: int| 0 <= k <= v@.len() ==> i32::MIN <= #[trigger] sum_prefix(v@, k) <= i32::MAX,
        decreases v@.len() - i,
    {
        proof {
            assert(sum_prefix(v@, i + 1) == sum_prefix(v@, i as int) + v@[i as int]);
            assert(i32::MIN <= sum_prefix(v@, i + 1) <= i32::MAX);
        }
        s = s + v[i];
        i = i + 1;
    }
    s
}

/// The fixed five-element sequence both computations sum.
pub open spec fn demo_values() -> Seq<i32> {
    seq![1i32, 2i32, 3i32, 4i32, 5i32]
}

fn demo_vec() -> (v: Vec<i32>)
    ensures
        v@ == demo_values(),
{
    let mut v: Vec<i32> = Vec::new();
    v.push(1);
    v.push(2);
    v.push(3);
    v.push(4);
    v.push(5);
    proof {
        assert(v@ =~= demo_values());
    }
    v
}

proof fn lemma_demo_prefix_sums()
    ensures
        forall|k: int| 0 <= k <= demo_values().len() ==> 0 <= #[trigger] sum_prefix(demo_values(), k) <= 15,
        seq_sum(demo_values()) == 15,
{
    let s = demo_values();
    assert(sum_prefix(s, 0) == 0);
    assert(sum_prefix(s, 1) == 1);
    assert(sum_prefix(s, 2) == 3);
    assert(sum_prefix(s, 3) == 6);
    assert(sum_prefix(s, 4) == 10);
    assert(sum_prefix(s, 5) == 15);
    assert forall|k: int| 0 <= k <= s.len() implies 0 <= #[trigger] sum_prefix(s, k) <= 15 by {
        assert(0 <= k <= 5);
    }
}

/// Sum the two fixed sequences and decide the outcome: with `fail` set, a
/// local error with a fixed message; otherwise success. The two sums — both
/// `15` — are returned so that the caller can report them.
pub fn compute_with_local_error(fail: bool) -> (r: (i32, i32, Result<(), MyError>))
    ensures
        r.0 == 15,
        r.1 == 15,
        fail ==> (r.2 matches Err(e) && e.details@ == "the local computation was told to fail"@),
        !fail ==> r.2 is Ok,
{
    let v1 = demo_vec();
    let v2 = demo_vec();
    proof {
        lemma_demo_prefix_sums();
    }
    let s1 = sum_i32(&v1);
    let s2 = sum_i32(&v2);
    let out: Result<(), MyError> = if fail {
        Err(MyError::new("the local computation was told to fail"))
    } else {
        Ok(())
    };
    (s1, s2, out)
}

/// Sum the two fixed sequences and decide the outcome in the library-error
/// representation: with `fail` set, a library error with a fixed message;
/// otherwise, a fixed two-element mix of one success and one local failure is
/// pushed through the conversion path, and the converted list is returned for
/// reporting.
pub fn compute_with_library_error(fail: bool) -> (r: (
    i32,
    i32,
    Result<Vec<Result<(), LibraryError>>, LibraryError>,
))
    ensures
        r.0 == 15,
        r.1 == 15,
        fail ==> (r.2 matches Err(e) && e.message@ == "the library computation was told to fail"@),
        !fail ==> (r.2 matches Ok(items) && items@.len() == 2 && items@[0] is Ok && (items@[1]
            matches Err(e) && e.message@ == "Some error"@)),
{
    let v1 = demo_vec();
    let v2 = demo_vec();
    proof {
        lemma_demo_prefix_sums();
    }
    let s1 = sum_i32(&v1);
    let s2 = sum_i32(&v2);
    if fail {
        return (s1, s2, Err(LibraryError::new("the library computation was told to fail")));
    }
    let mut mixed: Vec<Result<(), MyError>> = Vec::new();
    mixed.push(Ok(()));
    mixed.push(Err(MyError::new("Some error")));
    let items = convert_results(mixed);
    proof {
        assert(items@[0] == convert_spec(mixed@[0]));
        assert(items@[1] == convert_spec(mixed@[1]));
    }
    (s1, s2, Ok(items))
}

} // verus!
