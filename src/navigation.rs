use vstd::prelude::*;

use crate::keyboard_mapping::ZeroToNine;

verus! {

/// The name after `selected` among `count` names, back to the first after the last.
pub open spec fn spec_next_name(selected: usize, count: usize) -> usize {
    if selected + 1 >= count {
        0
    } else {
        (selected + 1) as usize
    }
}

/// The name before `selected` among `count` names, round to the last before the first.
pub open spec fn spec_prev_name(selected: usize, count: usize) -> usize {
    if selected == 0 {
        (count - 1) as usize
    } else {
        (selected - 1) as usize
    }
}

/// The number that a run of typed digits spells, most significant first.
pub open spec fn decimal_value(digits: Seq<ZeroToNine>) -> nat
    decreases digits.len(),
{
    if digits.len() == 0 {
        0
    } else {
        10 * decimal_value(digits.drop_last()) + digits.last().0 as nat
    }
}

/// The image index that a step of `incr` from `current` lands on: the step
/// is taken when it stays within the `len` images, and refused otherwise.
pub open spec fn spec_index_after(current: usize, incr: isize, len: usize) -> usize {
    if 0 <= current + incr < len {
        (current + incr) as usize
    } else {
        current
    }
}

/// Selects the next name, wrapping to the first after the last.
pub fn next_name(selected: usize, count: usize) -> (r: usize)
    ensures
        r == spec_next_name(selected, count),
{
    if selected >= count || count - selected <= 1 {
        0
    } else {
        selected + 1
    }
}

/// Selects the previous name, wrapping to the last before the first.
pub fn prev_name(selected: usize, count: usize) -> (r: usize)
    requires
        count >= 1,
    ensures
        r == spec_prev_name(selected, count),
{
    if selected == 0 {
        count - 1
    } else {
        selected - 1
    }
}

/// A number spelled by digits grows, or stays, as digits are appended.
proof fn lemma_decimal_prefix(digits: Seq<ZeroToNine>, i: int)
    requires
        0 <= i <= digits.len(),
    ensures
        decimal_value(digits.take(i)) <= decimal_value(digits),
    decreases digits.len() - i,
{
    if i < digits.len() {
        lemma_decimal_prefix(digits, i + 1);
        assert(digits.take(i + 1).drop_last() =~= digits.take(i));
    } else {
        assert(digits.take(i) =~= digits);
    }
}

/// The name that typed digits pick among `count` names: the number they
/// spell, when there is a name with that number.
pub fn shortcut_choice(digits: &Vec<ZeroToNine>, count: usize) -> (r: Option<usize>)
    ensures
        decimal_value(digits@) < count ==> r == Some(decimal_value(digits@) as usize),
        decimal_value(digits@) >= count ==> r is None,
{
    let n = digits.len();
    let mut value: usize = 0;
    let mut i: usize = 0;
    while i < n
        invariant
            n == digits@.len(),
            i <= n,
            value == decimal_value(digits@.take(i as int)),
        decreases n - i,
    {
        proof {
            assert(digits@.take(i + 1).drop_last() =~= digits@.take(i as int));
        }
        let d = digits[i].0 as usize;
        match value.checked_mul(10) {
            Some(tens) => match tens.checked_add(d) {
                Some(next) => {
                    value = next;
                },
                None => {
                    proof {
                        lemma_decimal_prefix(digits@, i + 1);
                    }
                    return None;
                },
            },
            None => {
                proof {
                    lemma_decimal_prefix(digits@, i + 1);
                }
                return None;
            },
        }
        i = i + 1;
    }
    proof {
        assert(digits@.take(n as int) =~= digits@);
    }
    if value < count {
        Some(value)
    } else {
        None
    }
}

/// The image index after a step of `incr` from `current` among `len`
/// images; a step that would leave the list keeps the current index.
pub fn index_after(current: usize, incr: isize, len: usize) -> (r: usize)
    ensures
        r == spec_index_after(current, incr, len),
{
    if incr >= 0 {
        let step = incr as usize;
        if current < len && step < len - current {
            current + step
        } else {
            current
        }
    } else {
        let back = if incr == isize::MIN {
            isize::MAX as usize + 1
        } else {
            (-incr) as usize
        };
        if back <= current && current - back < len {
            current - back
        } else {
            current
        }
    }
}

} // verus!
