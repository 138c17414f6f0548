//! Mutable access to a CPU's performance domain.
use vstd::prelude::*;
use super::em::{EnergyModel, PerformanceDomain, pd_index};

verus! {

impl EnergyModel {
    /// The domain of `cpu`, for changing, if it has one.
    pub fn get_pd_for_cpu_mut(&mut self, cpu: u32) -> (r: Option<&mut PerformanceDomain>)
        requires
            old(self).wf(),
        ensures
            r.is_none() == pd_index(*old(self), cpu).is_none(),
            match r {
                Some(pd) => exists|i: int| pd_index(*old(self), cpu) == Some(i) && *pd == old(self).domains@[i],
                None => true,
            },
    {
        match self.pd_slot(cpu) {
            None => None,
            Some(i) => Some(&mut self.domains[i]),
        }
    }
}

} // verus!
