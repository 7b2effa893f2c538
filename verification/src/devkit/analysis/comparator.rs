//! Reference fees for comparing a fee against.
use vstd::prelude::*;

verus! {

/// Compares input fees against a pre-configured set of reference fees.
#[derive(Debug)]
pub struct FeeComparator {
    reference_fees: Vec<u64>,
}

impl FeeComparator {
    /// The reference fees.
    pub closed spec fn spec_reference_fees(&self) -> Seq<u64> {
        self.reference_fees@
    }

    /// Create a comparator backed by the given reference fees, which must
    /// not be empty.
    pub fn new(reference_fees: Vec<u64>) -> (res: Self)
        requires
            reference_fees@.len() > 0,
        ensures
            res.spec_reference_fees() == reference_fees@,
    {
        Self { reference_fees }
    }

    /// The reference fees.
    pub fn reference_fees(&self) -> (res: &[u64])
        ensures
            res@ == self.spec_reference_fees(),
            res@.len() > 0,
    {
        proof {
            use_type_invariant(self);
        }
        self.reference_fees.as_slice()
    }

    #[verifier::type_invariant]
    closed spec fn nonempty(self) -> bool {
        self.reference_fees@.len() > 0
    }
}

impl Clone for FeeComparator {
    fn clone(&self) -> (res: Self)
        ensures
            res.spec_reference_fees() == self.spec_reference_fees(),
    {
        proof {
            use_type_invariant(self);
        }
        let fees = self.reference_fees.clone();
        assert(fees@ =~= self.reference_fees@);
        FeeComparator { reference_fees: fees }
    }
}

} // verus!
