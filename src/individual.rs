//! A candidate solution: one inclusion flag per item and its cached fitness.
use vstd::prelude::*;

verus! {

pub struct Individual {
    pub genes: Vec<bool>,
    pub fitness: u64,
}

impl View for Individual {
    type V = (Seq<bool>, u64);

    open spec fn view(&self) -> (Seq<bool>, u64) {
        (self.genes@, self.fitness)
    }
}

impl Individual {
    /// A deep copy: the genes are duplicated, not shared.
    pub fn clone(&self) -> (r: Individual)
        ensures
            r@ == self@,
    {
        let genes = self.genes.clone();
        assert(genes@ =~= self.genes@);
        Individual { genes, fitness: self.fitness }
    }
}

} // verus!
