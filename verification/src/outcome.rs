//! Lists of outcomes: either every step succeeds, or the first failure is
//! the failure of the whole.

use vstd::prelude::*;

verus! {

/// Whether the `i`-th outcome is the first failure.
pub open spec fn is_first_err<T, E>(outcomes: Seq<Result<T, E>>, i: int) -> bool {
    &&& 0 <= i < outcomes.len()
    &&& outcomes[i] is Err
    &&& forall|j: int| 0 <= j < i ==> (#[trigger] outcomes[j]) is Ok
}

/// All the values where every outcome is a success, in order; else the
/// error of the first failure.
pub open spec fn all_or_first_err<T, E>(outcomes: Seq<Result<T, E>>) -> Result<Seq<T>, E> {
    if exists|i: int| is_first_err(outcomes, i) {
        let i = choose|i: int| is_first_err(outcomes, i);
        Err(outcomes[i]->Err_0)
    } else {
        Ok(Seq::new(outcomes.len(), |i: int| outcomes[i]->Ok_0))
    }
}

/// The first failure decides the whole.
pub proof fn lemma_first_err_decides<T, E>(outcomes: Seq<Result<T, E>>, i: int)
    requires
        is_first_err(outcomes, i),
    ensures
        all_or_first_err(outcomes) == Err::<Seq<T>, E>(outcomes[i]->Err_0),
{
    let k = choose|k: int| is_first_err(outcomes, k);
    if k < i {
        assert(outcomes[k] is Ok);
    } else if i < k {
        assert(outcomes[i] is Ok);
    }
}

/// Where every outcome is a success, the whole is the list of values.
pub proof fn lemma_all_ok<T, E>(outcomes: Seq<Result<T, E>>)
    requires
        forall|j: int| 0 <= j < outcomes.len() ==> (#[trigger] outcomes[j]) is Ok,
    ensures
        all_or_first_err(outcomes) == Ok::<Seq<T>, E>(
            Seq::new(outcomes.len(), |i: int| outcomes[i]->Ok_0),
        ),
{
    assert(!exists|i: int| is_first_err(outcomes, i));
}

/// Where the whole is a success, so is every step, and the values agree.
pub proof fn lemma_ok_means_all_ok<T, E>(outcomes: Seq<Result<T, E>>, i: int)
    requires
        all_or_first_err(outcomes) is Ok,
        0 <= i < outcomes.len(),
    ensures
        outcomes[i] is Ok,
        all_or_first_err(outcomes)->Ok_0.len() == outcomes.len(),
        all_or_first_err(outcomes)->Ok_0[i] == outcomes[i]->Ok_0,
    decreases i,
{
    if outcomes[i] is Err {
        if forall|j: int| 0 <= j < i ==> (#[trigger] outcomes[j]) is Ok {
            assert(is_first_err(outcomes, i));
        } else {
            let j = choose|j: int| 0 <= j < i && !((#[trigger] outcomes[j]) is Ok);
            lemma_ok_means_all_ok(outcomes, j);
        }
    }
}

} // verus!
