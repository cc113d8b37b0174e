//! What it means to select from a sequence, in order, exactly the members
//! that pass a test, and the proof that filtering does so.

use vstd::prelude::*;

verus! {

/// `picked` is taken from `from` at the positions `at`: one position for
/// each member of `picked`, in ascending order.
pub open spec fn taken_at<A>(picked: Seq<A>, from: Seq<A>, at: Seq<int>) -> bool {
    &&& at.len() == picked.len()
    &&& forall|k: int|
        0 <= k < at.len() ==> 0 <= #[trigger] at[k] < from.len() && picked[k] == from[at[k]]
    &&& forall|j: int, k: int| 0 <= j < k < at.len() ==> at[j] < at[k]
}

/// `picked` holds exactly the members of `from` that pass `test`, in the
/// order in which they stand in `from`:
///
/// - every member of `picked` passes `test`;
/// - every member of `from` that is not in `picked` fails `test`;
/// - `picked` is taken from `from` at ascending positions, and these are all
///   the positions whose member passes `test`, so that a member which
///   occurs several times in `from` is picked as often as it occurs.
pub open spec fn selects<A>(picked: Seq<A>, from: Seq<A>, test: spec_fn(A) -> bool) -> bool {
    &&& forall|k: int| 0 <= k < picked.len() ==> test(#[trigger] picked[k])
    &&& forall|i: int|
        0 <= i < from.len() && !picked.contains(#[trigger] from[i]) ==> !test(from[i])
    &&& exists|at: Seq<int>|
        {
            &&& #[trigger] taken_at(picked, from, at)
            &&& forall|i: int| 0 <= i < from.len() ==> (test(from[i]) <==> at.contains(i))
        }
}

/// The positions of `from` whose member passes `test`, in ascending order.
pub open spec fn passing_positions<A>(from: Seq<A>, test: spec_fn(A) -> bool) -> Seq<int>
    decreases from.len(),
{
    if from.len() == 0 {
        Seq::empty()
    } else {
        let before = passing_positions(from.drop_last(), test);
        if test(from.last()) {
            before.push(from.len() - 1)
        } else {
            before
        }
    }
}

/// Filtering takes the members at the passing positions, and these are
/// exactly the positions whose member passes the test.
pub proof fn lemma_filter_takes_passing_positions<A>(from: Seq<A>, test: spec_fn(A) -> bool)
    ensures
        taken_at(from.filter(test), from, passing_positions(from, test)),
        forall|i: int|
            0 <= i < from.len() ==> (test(from[i]) <==> passing_positions(from, test).contains(i)),
    decreases from.len(),
{
    reveal(Seq::filter);
    if from.len() > 0 {
        let front = from.drop_last();
        let at = passing_positions(from, test);
        let before = passing_positions(front, test);
        lemma_filter_takes_passing_positions(front, test);
        assert forall|i: int| 0 <= i < from.len() implies (test(from[i]) <==> at.contains(i)) by {
            if i < front.len() {
                if before.contains(i) {
                    let k = choose|k: int| 0 <= k < before.len() && before[k] == i;
                    assert(at[k] == i);
                }
            } else if test(from.last()) {
                assert(at[at.len() - 1] == i);
            }
        }
    }
}

/// Filtering a sequence selects from it exactly the members that pass the
/// test, in order.
pub proof fn lemma_filter_selects<A>(from: Seq<A>, test: spec_fn(A) -> bool)
    ensures
        selects(from.filter(test), from, test),
{
    lemma_filter_takes_passing_positions(from, test);
}

/// Every member of what filtering leaves of a sequence is a member of the
/// sequence.
pub proof fn lemma_filtered_are_members<A>(from: Seq<A>, test: spec_fn(A) -> bool)
    ensures
        forall|k: int|
            0 <= k < from.filter(test).len() ==> from.contains(#[trigger] from.filter(test)[k]),
{
    let at = passing_positions(from, test);
    lemma_filter_takes_passing_positions(from, test);
    assert forall|k: int| 0 <= k < from.filter(test).len() implies from.contains(
        #[trigger] from.filter(test)[k],
    ) by {
        assert(from[at[k]] == from.filter(test)[k]);
    }
}

/// Filtering twice, first by a test and then by a stronger one, is
/// filtering by the stronger one.
pub proof fn lemma_filter_by_stronger_test<A>(
    from: Seq<A>,
    weak: spec_fn(A) -> bool,
    strong: spec_fn(A) -> bool,
)
    requires
        forall|i: int| 0 <= i < from.len() && strong(#[trigger] from[i]) ==> weak(from[i]),
    ensures
        from.filter(weak).filter(strong) == from.filter(strong),
    decreases from.len(),
{
    reveal(Seq::filter);
    if from.len() > 0 {
        let front = from.drop_last();
        lemma_filter_by_stronger_test(front, weak, strong);
        if weak(from.last()) {
            front.filter(weak).lemma_filter_push(from.last(), strong);
        }
    }
}

/// Filtering by a test that every member passes changes nothing.
pub proof fn lemma_filter_keeps_all<A>(from: Seq<A>, test: spec_fn(A) -> bool)
    requires
        forall|i: int| 0 <= i < from.len() ==> test(#[trigger] from[i]),
    ensures
        from.filter(test) == from,
    decreases from.len(),
{
    reveal(Seq::filter);
    if from.len() > 0 {
        let front = from.drop_last();
        lemma_filter_keeps_all(front, test);
    }
}

} // verus!
