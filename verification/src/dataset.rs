//! A labeled dataset: index-aligned input and target vectors in fixed-point
//! units. The dataset is immutable for the duration of training; the trainer
//! only borrows it.

use vstd::prelude::*;

verus! {

/// Mathematical view of a dataset: two aligned sequences of sample vectors.
#[verifier::ext_equal]
pub struct DatasetV {
    pub inputs: Seq<Seq<i64>>,
    pub targets: Seq<Seq<i64>>,
}

/// A dataset for training: `inputs[i]` is the sample whose desired output is
/// `targets[i]`.
pub struct Dataset {
    pub inputs: Vec<Vec<i64>>,
    pub targets: Vec<Vec<i64>>,
}

impl View for Dataset {
    type V = DatasetV;

    open spec fn view(&self) -> DatasetV {
        DatasetV {
            inputs: self.inputs@.map_values(|v: Vec<i64>| v@),
            targets: self.targets@.map_values(|v: Vec<i64>| v@),
        }
    }
}

/// A dataset is fit for training when inputs and targets are index-aligned
/// and there is at least one sample.
pub open spec fn dataset_valid(d: DatasetV) -> bool {
    d.inputs.len() == d.targets.len() && d.inputs.len() >= 1
}

impl Dataset {
    /// Pair up input and target vectors into a dataset.
    pub fn new(inputs: Vec<Vec<i64>>, targets: Vec<Vec<i64>>) -> (r: Self)
        ensures
            r.inputs == inputs,
            r.targets == targets,
    {
        Self { inputs, targets }
    }

    /// Number of samples on the input side.
    pub fn len(&self) -> (r: usize)
        ensures
            r == self@.inputs.len(),
    {
        self.inputs.len()
    }
}

} // verus!
