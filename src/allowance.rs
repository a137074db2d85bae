use vstd::prelude::*;

verus! {

/// Why an allowance could not be used.
#[derive(Debug, Clone, Copy, PartialEq, Eq, Structural)]
pub enum AllowanceError {
    /// More items were asked for than the allowance has left.
    OverAllowance,
}

/// How many items one account may mint, and how many it has minted.
#[derive(Debug, Clone, Copy, PartialEq, Eq, Structural)]
pub struct Allowance {
    max: u16,
    used: u16,
}

impl Allowance {
    #[verifier::type_invariant]
    spec fn inv(&self) -> bool {
        self.used <= self.max
    }

    /// The most items the account may mint.
    pub closed spec fn max(&self) -> nat {
        self.max as nat
    }

    /// The items the account has minted.
    pub closed spec fn used(&self) -> nat {
        self.used as nat
    }

    /// What is left of the allowance.
    pub open spec fn spec_left(&self) -> nat {
        (self.max() - self.used()) as nat
    }

    /// An allowance of `max` items, none of them used.
    pub closed spec fn fresh(max: u16) -> Allowance {
        Allowance { max, used: 0 }
    }

    /// This allowance with its maximum raised to `max`, where that is higher.
    pub closed spec fn raised(self, max: u16) -> Allowance {
        if max > self.max {
            Allowance { max, used: self.used }
        } else {
            self
        }
    }

    /// This allowance with `num` more items used.
    pub closed spec fn consumed(self, num: u16) -> Allowance {
        Allowance { max: self.max, used: (self.used + num) as u16 }
    }

    /// A fresh allowance of `max` items, none of them used.
    pub fn new(max: u16) -> (r: Allowance)
        ensures
            r == Allowance::fresh(max),
            r.max() == max,
            r.used() == 0,
    {
        Allowance { max, used: 0 }
    }

    /// How many more items the account may mint.
    pub fn left(&self) -> (n: u16)
        ensures
            n == self.spec_left(),
            self.used() <= self.max(),
    {
        proof {
            use_type_invariant(self);
        }
        self.max - self.used
    }

    /// Raises the maximum to `max` where that is higher; a maximum is never
    /// lowered.
    pub fn raise_max(self, max: u16) -> (r: Allowance)
        ensures
            r.max() == if max > self.max() {
                max as nat
            } else {
                self.max()
            },
            r.used() == self.used(),
            r.used() <= r.max(),
            r == self.raised(max),
    {
        proof {
            use_type_invariant(&self);
        }
        if max > self.max {
            Allowance { max, used: self.used }
        } else {
            self
        }
    }

    /// Records `num` more items as minted. Fails, and changes nothing, where
    /// `num` is more than what is left.
    pub fn use_num(&mut self, num: u16) -> (r: Result<(), AllowanceError>)
        ensures
            final(self).max() == old(self).max(),
            final(self).used() <= final(self).max(),
            num <= old(self).spec_left() ==> r == Ok::<(), AllowanceError>(())
                && *final(self) == old(self).consumed(num),
            num <= old(self).spec_left() ==> final(self).used() == old(self).used() + num,
            num > old(self).spec_left() ==> r == Err::<(), AllowanceError>(
                AllowanceError::OverAllowance,
            ) && *final(self) == *old(self),
    {
        proof {
            use_type_invariant(&*self);
        }
        if num > self.max - self.used {
            return Err(AllowanceError::OverAllowance);
        }
        self.used = self.used + num;
        Ok(())
    }
}

/// A fresh allowance of `max` items has used none of them.
pub proof fn lemma_fresh(max: u16)
    ensures
        Allowance::fresh(max).max() == max,
        Allowance::fresh(max).used() == 0,
{
}

/// Raising keeps what was used and takes the higher of the two maxima.
pub proof fn lemma_raised(a: Allowance, max: u16)
    ensures
        a.raised(max).max() == if max > a.max() {
            max as nat
        } else {
            a.max()
        },
        a.raised(max).used() == a.used(),
{
}

/// Using `num` items of an allowance that has them left adds `num` to what
/// is used and keeps the maximum, so that it is never overdrawn.
pub proof fn lemma_consumed(a: Allowance, num: u16)
    requires
        a.used() + num <= a.max(),
    ensures
        a.consumed(num).max() == a.max(),
        a.consumed(num).used() == a.used() + num,
        a.consumed(num).used() <= a.consumed(num).max(),
{
}

} // verus!
