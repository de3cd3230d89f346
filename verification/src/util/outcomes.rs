//! Lists of attempts that end with the first failure.

use vstd::prelude::*;

verus! {

/// Whether `outcomes` are those of `count` attempts, made in order and given up
/// after one that failed.
pub open spec fn reaches<T>(outcomes: Seq<Result<T, String>>, count: nat) -> bool {
    outcomes.len() == count || (0 < outcomes.len() < count && outcomes.last() is Err)
}

/// Whether the attempt at position `i` is the first that failed, with this complaint.
pub open spec fn fails_first_at<T>(
    outcomes: Seq<Result<T, String>>,
    i: int,
    complaint: Seq<char>,
) -> bool {
    &&& 0 <= i < outcomes.len()
    &&& outcomes[i] matches Err(detail) && detail@ == complaint
    &&& forall|k: int| 0 <= k < i ==> (#[trigger] outcomes[k]) is Ok
}

/// Whether an attempt failed, the first one with this complaint.
pub open spec fn fails_first<T>(outcomes: Seq<Result<T, String>>, complaint: Seq<char>) -> bool {
    exists|i: int| #[trigger] fails_first_at(outcomes, i, complaint)
}

/// Whether no attempt failed.
pub open spec fn all_succeed<T>(outcomes: Seq<Result<T, String>>) -> bool {
    forall|i: int| 0 <= i < outcomes.len() ==> (#[trigger] outcomes[i]) is Ok
}

/// What the attempts gave.
pub open spec fn gains<T>(outcomes: Seq<Result<T, String>>) -> Seq<T> {
    outcomes.map_values(|outcome: Result<T, String>| outcome->Ok_0)
}

/// Attempts either all succeed or one of them fails first, and only one complaint is the first.
pub proof fn first_complaint_is_unique<T>(
    outcomes: Seq<Result<T, String>>,
    complaint: Seq<char>,
    other: Seq<char>,
)
    ensures
        fails_first(outcomes, complaint) ==> !all_succeed(outcomes),
        fails_first(outcomes, complaint) && fails_first(outcomes, other) ==> complaint == other,
        fails_first(outcomes, complaint) ==> exists|i: int|
            0 <= i < outcomes.len() && (#[trigger] outcomes[i]) is Err && outcomes[i]->Err_0@
                == complaint,
{
    if fails_first(outcomes, complaint) {
        let i = choose|i: int| #[trigger] fails_first_at(outcomes, i, complaint);
        assert(outcomes[i] is Err);
        if fails_first(outcomes, other) {
            let j = choose|j: int| #[trigger] fails_first_at(outcomes, j, other);
            assert(outcomes[j] is Err);
        }
    }
}

/// What the attempts gave stands in the order of the attempts.
pub proof fn gains_follow_attempts<T>(outcomes: Seq<Result<T, String>>, i: int)
    requires
        all_succeed(outcomes),
        0 <= i < outcomes.len(),
    ensures
        gains(outcomes).len() == outcomes.len(),
        outcomes[i] == Ok::<T, String>(gains(outcomes)[i]),
{
    assert(outcomes[i] is Ok);
}

} // verus!
