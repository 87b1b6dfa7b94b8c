//! The electric and magnetic fields of one grid.
use vstd::prelude::*;
use crate::vector_field::VectorField;

verus! {

/// An electric and a magnetic field over the same grid.
pub struct ElectromagneticField<T> {
    pub electric_field: VectorField<T>,
    pub magnetic_field: VectorField<T>,
}

impl<T> ElectromagneticField<T> {
    /// Both fields are well formed and have the same dimensions.
    pub open spec fn wf(&self) -> bool {
        &&& self.electric_field.wf()
        &&& self.magnetic_field.wf()
        &&& self.electric_field.dims() == self.magnetic_field.dims()
    }

    /// Tests that the two fields have the same dimensions.
    pub fn sizes_match(&self) -> (r: bool)
        ensures
            r == (self.electric_field.dims() == self.magnetic_field.dims()),
    {
        let e = self.electric_field.get_size();
        let m = self.magnetic_field.get_size();
        let r = e[0] == m[0] && e[1] == m[1] && e[2] == m[2];
        proof {
            if r {
                assert(e =~= m);
            }
        }
        r
    }
}

} // verus!
