use vstd::prelude::*;

verus! {

/// The sum and the number of a list of deltas, from which an average is
/// taken.
#[derive(Debug, Clone, Copy, PartialEq, Eq, Structural)]
pub struct Tally {
    pub sum: i128,
    pub count: usize,
}

/// The sum of `s`.
pub open spec fn sum_of(s: Seq<i8>) -> int
    decreases s.len(),
{
    if s.len() == 0 {
        0
    } else {
        sum_of(s.drop_last()) + s.last()
    }
}

/// The values of `s` above zero, in order.
pub open spec fn gains_of(s: Seq<i8>) -> Seq<i8>
    decreases s.len(),
{
    if s.len() == 0 {
        Seq::empty()
    } else if s.last() > 0 {
        gains_of(s.drop_last()).push(s.last())
    } else {
        gains_of(s.drop_last())
    }
}

/// The values of `s` below zero, in order.
pub open spec fn losses_of(s: Seq<i8>) -> Seq<i8>
    decreases s.len(),
{
    if s.len() == 0 {
        Seq::empty()
    } else if s.last() < 0 {
        losses_of(s.drop_last()).push(s.last())
    } else {
        losses_of(s.drop_last())
    }
}

/// Returns the sum and the number of `values`.
pub fn tally(values: &Vec<i8>) -> (r: Tally)
    ensures
        r.sum == sum_of(values@),
        r.count == values.len(),
{
    let mut sum: i128 = 0;
    let mut i: usize = 0;
    while i < values.len()
        invariant
            i <= values.len(),
            sum == sum_of(values@.take(i as int)),
            -128 * i <= sum <= 127 * i,
        decreases values.len() - i,
    {
        proof {
            assert(values@.take(i + 1).drop_last() =~= values@.take(i as int));
        }
        sum = sum + values[i] as i128;
        i = i + 1;
    }
    proof {
        assert(values@.take(values@.len() as int) =~= values@);
    }
    Tally { sum, count: values.len() }
}

/// Returns the values above zero, in order.
pub fn gains(values: &Vec<i8>) -> (r: Vec<i8>)
    ensures
        r@ == gains_of(values@),
{
    let mut r: Vec<i8> = Vec::new();
    let mut i: usize = 0;
    while i < values.len()
        invariant
            i <= values.len(),
            r@ == gains_of(values@.take(i as int)),
        decreases values.len() - i,
    {
        proof {
            assert(values@.take(i + 1).drop_last() =~= values@.take(i as int));
        }
        if values[i] > 0 {
            r.push(values[i]);
        }
        i = i + 1;
    }
    proof {
        assert(values@.take(values@.len() as int) =~= values@);
    }
    r
}

/// Returns the values below zero, in order.
pub fn losses(values: &Vec<i8>) -> (r: Vec<i8>)
    ensures
        r@ == losses_of(values@),
{
    let mut r: Vec<i8> = Vec::new();
    let mut i: usize = 0;
    while i < values.len()
        invariant
            i <= values.len(),
            r@ == losses_of(values@.take(i as int)),
        decreases values.len() - i,
    {
        proof {
            assert(values@.take(i + 1).drop_last() =~= values@.take(i as int));
        }
        if values[i] < 0 {
            r.push(values[i]);
        }
        i = i + 1;
    }
    proof {
        assert(values@.take(values@.len() as int) =~= values@);
    }
    r
}

} // verus!
