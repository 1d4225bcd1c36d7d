//! Team names: an ordered list in which no name may occur twice.

use crate::error::{ValidationError, ValidationErrorView};
use vstd::prelude::*;

verus! {

/// The names in `teams`, each as its sequence of characters.
pub open spec fn names_of(teams: Seq<String>) -> Seq<Seq<char>> {
    Seq::new(teams.len(), |i: int| teams[i]@)
}

/// Whether the name at position `j` already occurs at an earlier position.
pub open spec fn occurs_before(names: Seq<Seq<char>>, j: int) -> bool {
    exists|i: int| 0 <= i < j && #[trigger] names[i] == names[j]
}

/// Whether `j` is the first position whose name occurred before.
pub open spec fn is_first_repeat(names: Seq<Seq<char>>, j: int) -> bool {
    &&& 0 <= j < names.len()
    &&& occurs_before(names, j)
    &&& forall|k: int| 0 <= k < j ==> !occurs_before(names, k)
}

/// The first position whose name occurred before, if any name repeats.
pub open spec fn first_repeat(names: Seq<Seq<char>>) -> Option<int> {
    if exists|j: int| is_first_repeat(names, j) {
        Some(choose|j: int| is_first_repeat(names, j))
    } else {
        None
    }
}

/// At most one position is the first repeat.
pub proof fn lemma_first_repeat_unique(names: Seq<Seq<char>>, j: int)
    requires
        is_first_repeat(names, j),
    ensures
        first_repeat(names) == Some(j),
{
    let c = choose|c: int| is_first_repeat(names, c);
    if c < j {
        assert(!occurs_before(names, c));
    } else if j < c {
        assert(!occurs_before(names, j));
    }
}

/// No position is a first repeat exactly when all names are distinct.
pub proof fn lemma_first_repeat_none(names: Seq<Seq<char>>)
    ensures
        first_repeat(names) is None <==> names.no_duplicates(),
{
    if names.no_duplicates() {
        if exists|j: int| is_first_repeat(names, j) {
            let j = choose|j: int| is_first_repeat(names, j);
            let i = choose|i: int| 0 <= i < j && #[trigger] names[i] == names[j];
            assert(names[i] != names[j]);
        }
    } else {
        let (a, b) = choose|a: int, b: int|
            0 <= a < names.len() && 0 <= b < names.len() && a != b && names[a] == names[b];
        let hi = if a < b { b } else { a };
        let lo = if a < b { a } else { b };
        assert(names[lo] == names[hi]);
        assert(occurs_before(names, hi));
        lemma_some_first_repeat(names, hi);
    }
}

/// If some position repeats an earlier name, there is a first such position.
pub proof fn lemma_some_first_repeat(names: Seq<Seq<char>>, j: int)
    requires
        0 <= j < names.len(),
        occurs_before(names, j),
    ensures
        first_repeat(names) matches Some(k) && k <= j && is_first_repeat(names, k),
    decreases j,
{
    if exists|k: int| 0 <= k < j && occurs_before(names, k) {
        let k = choose|k: int| 0 <= k < j && occurs_before(names, k);
        lemma_some_first_repeat(names, k);
    } else {
        assert(is_first_repeat(names, j));
        lemma_first_repeat_unique(names, j);
    }
}

/// Checks that no team name occurs twice.
///
/// Names are compared exactly, character by character. The list is read
/// front to back, and the first name found to repeat an earlier one is
/// the one reported.
///
/// Each name is compared with the ones before it. A hash set would do
/// this in one pass, but vstd gives a set's `insert` a meaning only for
/// key types it knows to hash consistently, and `String` is not among
/// them; team lists are short, so the scan costs nothing that matters.
pub fn validate_unique_teams(teams: &[String]) -> (r: Result<(), ValidationError>)
    ensures
        r is Ok <==> names_of(teams@).no_duplicates(),
        r matches Err(e) ==> first_repeat(names_of(teams@)) matches Some(j) && e@
            == (ValidationErrorView::DuplicateValue { name: names_of(teams@)[j] }),
{
    let ghost names = names_of(teams@);
    let n = teams.len();
    let mut j: usize = 0;
    while j < n
        invariant
            j <= n,
            n == teams@.len(),
            names == names_of(teams@),
            forall|k: int| 0 <= k < j ==> !occurs_before(names, k),
        decreases n - j,
    {
        let mut i: usize = 0;
        while i < j
            invariant
                i <= j < n,
                n == teams@.len(),
                names == names_of(teams@),
                forall|k: int| 0 <= k < j ==> !occurs_before(names, k),
                forall|m: int| 0 <= m < i ==> names[m] != names[j as int],
            decreases j - i,
        {
            if teams[i] == teams[j] {
                proof {
                    assert(names[i as int] == names[j as int]);
                    assert(is_first_repeat(names, j as int));
                    lemma_first_repeat_unique(names, j as int);
                    lemma_first_repeat_none(names);
                }
                return Err(ValidationError::DuplicateValue { name: teams[j].clone() });
            }
            i += 1;
        }
        j += 1;
    }
    proof {
        assert(first_repeat(names) is None) by {
            if exists|k: int| is_first_repeat(names, k) {
                let k = choose|k: int| is_first_repeat(names, k);
                assert(!occurs_before(names, k));
            }
        }
        lemma_first_repeat_none(names);
    }
    Ok(())
}

} // verus!
