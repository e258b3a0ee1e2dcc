use vstd::prelude::*;

verus! {

/// A single decimal digit, as typed to pick a name by its number.
#[derive(Clone, Copy, Debug, PartialEq, Eq, Structural, PartialOrd, Ord)]
pub struct ZeroToNine(pub u8);

impl ZeroToNine {
    /// The digit `n`, if `n` is one.
    pub fn new(n: u8) -> (r: Option<ZeroToNine>)
        ensures
            n <= 9 ==> r == Some(ZeroToNine(n)),
            n > 9 ==> r is None,
    {
        if n <= 9 {
            Some(ZeroToNine(n))
        } else {
            None
        }
    }

    /// The ten digits, from zero up.
    pub fn iter() -> (r: Vec<ZeroToNine>)
        ensures
            r@.len() == 10,
            forall|i: int| 0 <= i < 10 ==> #[trigger] r@[i] == ZeroToNine(i as u8),
    {
        let mut digits: Vec<ZeroToNine> = Vec::new();
        let mut n: u8 = 0;
        while n <= 9
            invariant
                n <= 10,
                digits@.len() == n,
                forall|i: int| 0 <= i < n ==> #[trigger] digits@[i] == ZeroToNine(i as u8),
            decreases 10 - n,
        {
            digits.push(ZeroToNine(n));
            n = n + 1;
        }
        digits
    }
}

/// What a key or button can be bound to.
#[derive(Clone, Copy, Debug, PartialEq, Eq, Structural, PartialOrd, Ord)]
pub enum Action {
    NextImage,
    PrevImage,
    NextName,
    PrevName,
    RemoveBox,
    NameNumber(ZeroToNine),
    Clear,
}

} // verus!
