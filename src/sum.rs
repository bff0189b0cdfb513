use vstd::prelude::*;

verus! {

/// `partials` are the running totals of adding `values` one by one, in order, to `zero`:
/// the first is `zero`, and each next one is what `plus` gives for the one before and the
/// next value.
pub open spec fn is_running_total<T, F: Fn(T, T) -> T>(
    plus: F,
    zero: T,
    values: Seq<T>,
    partials: Seq<T>,
) -> bool {
    &&& partials.len() == values.len() + 1
    &&& partials[0] == zero
    &&& forall|i: int|
        0 <= i < values.len() ==> call_ensures(
            plus,
            (partials[i], values[i]),
            #[trigger] partials[i + 1],
        )
}

/// Whether `sum` is the left-to-right sum of `values` under `plus`, starting from `zero`.
pub open spec fn is_left_sum<T, F: Fn(T, T) -> T>(plus: F, zero: T, values: Seq<T>, sum: T) -> bool {
    exists|partials: Seq<T>|
        #[trigger] is_running_total(plus, zero, values, partials) && sum == partials.last()
}

/// Whether `plus` gives one result for each pair of arguments.
pub open spec fn is_functional<T, F: Fn(T, T) -> T>(plus: F) -> bool {
    forall|a: T, b: T, r1: T, r2: T|
        call_ensures(plus, (a, b), r1) && call_ensures(plus, (a, b), r2) ==> r1 == r2
}

/// Sums `values` in sequence order: `zero`, plus the first value, plus the second, and so
/// on, each step by one call of `plus`. An empty list sums to `zero`.
pub fn calculate_sum<T: Copy, F: Fn(T, T) -> T>(values: &Vec<T>, zero: T, plus: F) -> (r: T)
    requires
        forall|a: T, b: T| call_requires(plus, (a, b)),
    ensures
        is_left_sum(plus, zero, values@, r),
        values@.len() == 0 ==> r == zero,
{
    let mut total = zero;
    let ghost mut partials: Seq<T> = seq![zero];
    let mut i: usize = 0;
    while i < values.len()
        invariant
            forall|a: T, b: T| call_requires(plus, (a, b)),
            0 <= i <= values@.len(),
            is_running_total(plus, zero, values@.subrange(0, i as int), partials),
            total == partials.last(),
        decreases values@.len() - i,
    {
        let next = plus(total, values[i]);
        proof {
            let prefix = values@.subrange(0, i + 1);
            assert(prefix.len() == i + 1);
            assert forall|k: int| 0 <= k < prefix.len() implies call_ensures(
                plus,
                (partials.push(next)[k], prefix[k]),
                #[trigger] partials.push(next)[k + 1],
            ) by {
                if k < i {
                    assert(prefix[k] == values@.subrange(0, i as int)[k]);
                }
            }
            partials = partials.push(next);
        }
        total = next;
        i = i + 1;
    }
    assert(values@.subrange(0, values@.len() as int) =~= values@);
    assert(is_running_total(plus, zero, values@, partials));
    total
}

/// With an addition that gives one result for each pair, the running totals of a list
/// are determined by the list and the start: a sum depends on its own values alone.
pub proof fn lemma_running_total_unique<T, F: Fn(T, T) -> T>(
    plus: F,
    zero: T,
    values: Seq<T>,
    p1: Seq<T>,
    p2: Seq<T>,
)
    requires
        is_functional(plus),
        is_running_total(plus, zero, values, p1),
        is_running_total(plus, zero, values, p2),
    ensures
        p1 == p2,
{
    assert forall|k: int| 0 <= k <= values.len() implies p1[k] == p2[k] by {
        lemma_running_total_agree_upto(plus, zero, values, p1, p2, k);
    }
    assert(p1 =~= p2);
}

proof fn lemma_running_total_agree_upto<T, F: Fn(T, T) -> T>(
    plus: F,
    zero: T,
    values: Seq<T>,
    p1: Seq<T>,
    p2: Seq<T>,
    k: int,
)
    requires
        is_functional(plus),
        is_running_total(plus, zero, values, p1),
        is_running_total(plus, zero, values, p2),
        0 <= k <= values.len(),
    ensures
        p1[k] == p2[k],
    decreases k,
{
    if k > 0 {
        lemma_running_total_agree_upto(plus, zero, values, p1, p2, k - 1);
        let j = k - 1;
        assert(call_ensures(plus, (p1[j], values[j]), p1[j + 1]));
        assert(call_ensures(plus, (p2[j], values[j]), p2[j + 1]));
    }
}

/// With an addition that gives one result for each pair, a list has one left-to-right
/// sum: two sums of the same values from the same start are equal, whatever else is
/// summed beside them.
pub proof fn lemma_left_sum_unique<T, F: Fn(T, T) -> T>(
    plus: F,
    zero: T,
    values: Seq<T>,
    s1: T,
    s2: T,
)
    requires
        is_functional(plus),
        is_left_sum(plus, zero, values, s1),
        is_left_sum(plus, zero, values, s2),
    ensures
        s1 == s2,
{
    let p1 = choose|p: Seq<T>| #[trigger] is_running_total(plus, zero, values, p) && s1 == p.last();
    let p2 = choose|p: Seq<T>| #[trigger] is_running_total(plus, zero, values, p) && s2 == p.last();
    lemma_running_total_unique(plus, zero, values, p1, p2);
}

} // verus!
