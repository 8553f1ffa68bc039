use vstd::prelude::*;

verus! {

/// `i` is the first position at which `flags` holds.
pub open spec fn is_first_true(flags: Seq<bool>, i: int) -> bool {
    &&& 0 <= i < flags.len()
    &&& flags[i]
    &&& forall|j: int| 0 <= j < i ==> !#[trigger] flags[j]
}

/// The first position at which `flags` holds, if there is one.
pub open spec fn first_true(flags: Seq<bool>) -> Option<int> {
    if exists|i: int| is_first_true(flags, i) {
        Some(choose|i: int| is_first_true(flags, i))
    } else {
        None
    }
}

/// How many positions of `flags` hold.
pub open spec fn count_true(flags: Seq<bool>) -> nat
    decreases flags.len(),
{
    if flags.len() == 0 {
        0
    } else {
        count_true(flags.drop_last()) + if flags.last() {
            1nat
        } else {
            0nat
        }
    }
}

pub proof fn lemma_first_true_at(flags: Seq<bool>, i: int)
    requires
        is_first_true(flags, i),
    ensures
        first_true(flags) == Some(i),
{
    let k = choose|k: int| is_first_true(flags, k);
    if k < i {
        assert(!flags[k]);
    } else if i < k {
        assert(!flags[i]);
    }
}

proof fn lemma_some_true_has_first(flags: Seq<bool>, n: int)
    requires
        0 <= n < flags.len(),
        flags[n],
    ensures
        exists|i: int| is_first_true(flags, i),
    decreases n,
{
    if exists|j: int| 0 <= j < n && flags[j] {
        let j = choose|j: int| 0 <= j < n && flags[j];
        lemma_some_true_has_first(flags, j);
    } else {
        assert(is_first_true(flags, n));
    }
}

pub proof fn lemma_first_true_none(flags: Seq<bool>)
    requires
        forall|i: int| 0 <= i < flags.len() ==> !#[trigger] flags[i],
    ensures
        first_true(flags) is None,
{
}

/// What `first_true` returns: the first holding position, or `None` exactly
/// when no position holds.
pub proof fn lemma_first_true(flags: Seq<bool>)
    ensures
        match first_true(flags) {
            Some(i) => is_first_true(flags, i),
            None => forall|i: int| 0 <= i < flags.len() ==> !#[trigger] flags[i],
        },
{
    if first_true(flags) is None {
        assert forall|i: int| 0 <= i < flags.len() implies !#[trigger] flags[i] by {
            if flags[i] {
                lemma_some_true_has_first(flags, i);
            }
        }
    }
}

/// A position that does not hold, added at the end, changes nothing.
pub proof fn lemma_first_true_push_false(flags: Seq<bool>)
    ensures
        first_true(flags.push(false)) == first_true(flags),
{
    let longer = flags.push(false);
    lemma_first_true(flags);
    match first_true(flags) {
        Some(i) => {
            assert(is_first_true(longer, i)) by {
                assert(longer[i] == flags[i]);
                assert forall|j: int| 0 <= j < i implies !#[trigger] longer[j] by {
                    assert(longer[j] == flags[j]);
                }
            }
            lemma_first_true_at(longer, i);
        },
        None => {
            assert forall|j: int| 0 <= j < longer.len() implies !#[trigger] longer[j] by {
                if j < flags.len() {
                    assert(longer[j] == flags[j]);
                }
            }
            lemma_first_true_none(longer);
        },
    }
}

/// A position that holds, added at the end, is found only if no earlier
/// position holds.
pub proof fn lemma_first_true_push_true(flags: Seq<bool>)
    ensures
        first_true(flags.push(true)) == match first_true(flags) {
            Some(i) => Some(i),
            None => Some(flags.len() as int),
        },
{
    let longer = flags.push(true);
    lemma_first_true(flags);
    let i = match first_true(flags) {
        Some(i) => i,
        None => flags.len() as int,
    };
    assert(is_first_true(longer, i)) by {
        assert forall|j: int| 0 <= j < i implies !#[trigger] longer[j] by {
            assert(longer[j] == flags[j]);
        }
    }
    lemma_first_true_at(longer, i);
}

/// Taking out a position that does not hold moves the first holding
/// position down by one if it stood behind, and not at all otherwise.
pub proof fn lemma_first_true_remove_false(flags: Seq<bool>, i: int)
    requires
        0 <= i < flags.len(),
        !flags[i],
    ensures
        first_true(flags.remove(i)) == match first_true(flags) {
            Some(k) => Some(
                if k > i {
                    k - 1
                } else {
                    k
                },
            ),
            None => None,
        },
{
    let shorter = flags.remove(i);
    lemma_first_true(flags);
    match first_true(flags) {
        Some(k) => {
            let k2 = if k > i {
                k - 1
            } else {
                k
            };
            assert(is_first_true(shorter, k2)) by {
                assert(shorter[k2] == flags[k]);
                assert forall|j: int| 0 <= j < k2 implies !#[trigger] shorter[j] by {
                    let j0 = if j < i {
                        j
                    } else {
                        j + 1
                    };
                    assert(shorter[j] == flags[j0]);
                }
            }
            lemma_first_true_at(shorter, k2);
        },
        None => {
            assert forall|j: int| 0 <= j < shorter.len() implies !#[trigger] shorter[j] by {
                let j0 = if j < i {
                    j
                } else {
                    j + 1
                };
                assert(shorter[j] == flags[j0]);
            }
            lemma_first_true_none(shorter);
        },
    }
}

/// Taking out the only position that holds leaves none.
pub proof fn lemma_first_true_remove_only(flags: Seq<bool>, i: int)
    requires
        0 <= i < flags.len(),
        forall|j: int| 0 <= j < flags.len() && j != i ==> !#[trigger] flags[j],
    ensures
        first_true(flags.remove(i)) is None,
{
    let shorter = flags.remove(i);
    assert forall|j: int| 0 <= j < shorter.len() implies !#[trigger] shorter[j] by {
        let j0 = if j < i {
            j
        } else {
            j + 1
        };
        assert(shorter[j] == flags[j0]);
    }
    lemma_first_true_none(shorter);
}

/// Where no position holds, none is counted.
pub proof fn lemma_count_true_none(flags: Seq<bool>)
    requires
        forall|i: int| 0 <= i < flags.len() ==> !#[trigger] flags[i],
    ensures
        count_true(flags) == 0,
    decreases flags.len(),
{
    if flags.len() > 0 {
        let front = flags.drop_last();
        assert forall|i: int| 0 <= i < front.len() implies !#[trigger] front[i] by {
            assert(front[i] == flags[i]);
        }
        lemma_count_true_none(front);
        assert(!flags[flags.len() - 1]);
    }
}

/// Where exactly one position holds, one is counted.
pub proof fn lemma_count_true_one(flags: Seq<bool>, k: int)
    requires
        0 <= k < flags.len(),
        flags[k],
        forall|i: int| 0 <= i < flags.len() && i != k ==> !#[trigger] flags[i],
    ensures
        count_true(flags) == 1,
    decreases flags.len(),
{
    let front = flags.drop_last();
    if k == flags.len() - 1 {
        assert forall|i: int| 0 <= i < front.len() implies !#[trigger] front[i] by {
            assert(front[i] == flags[i]);
        }
        lemma_count_true_none(front);
    } else {
        assert(front[k] == flags[k]);
        assert forall|i: int| 0 <= i < front.len() && i != k implies !#[trigger] front[i] by {
            assert(front[i] == flags[i]);
        }
        lemma_count_true_one(front, k);
        assert(!flags[flags.len() - 1]);
    }
}

} // verus!
