//! Multi-stage transformation pipelines over a dense three-dimensional grid
//! of cells: a bounds-checked grid container with sequential and parallel
//! traversal, a `Step` capability for grid transformations, combinators that
//! sequence steps with short-circuit failure, and a builder that assembles a
//! pipeline and runs it against a grid it owns.

pub mod coords;
pub mod data_set;
pub mod error;
pub mod step;

pub use data_set::DataSet;
pub use error::PipelineError;
pub use step::Chain;
pub use step::EmptyStep;
pub use step::PipelineStepResult;
pub use step::Step;

use vstd::prelude::*;
use core::marker::PhantomData;

verus! {

/// Accumulates a pipeline's steps, one at a time, into a right-nested chain
/// whose shape is fixed at compile time. Appending never mutates: each
/// append yields a new builder of a new chain type.
pub struct PipelineBuilder<T, S> {
    steps: S,
    _marker: PhantomData<T>,
}

/// The finalized, runnable pipeline: the complete step chain together with a
/// grid slot. The slot is in one of two states — holding a grid that the
/// next run will consume, or already consumed.
pub struct Pipeline<T, S> {
    dataset: Option<DataSet<T>>,
    steps: S,
}

impl<T> PipelineBuilder<T, EmptyStep> {
    /// Starts a builder whose chain is just the identity step.
    pub fn new() -> (r: Self)
        ensures
            r.steps() == EmptyStep,
    {
        PipelineBuilder { steps: EmptyStep, _marker: PhantomData }
    }
}

impl<T, S> PipelineBuilder<T, S> {
    /// The step chain accumulated so far.
    pub closed spec fn steps(self) -> S {
        self.steps
    }

    /// Appends one step: the new chain runs everything added so far, then
    /// `step`, so steps execute in the order they were added.
    pub fn add_step<U>(self, step: U) -> (r: PipelineBuilder<T, Chain<S, U>>) where
        S: Step<T>,
        U: Step<T>,

        ensures
            r.steps() == (Chain { first: self.steps(), second: step }),
    {
        PipelineBuilder { steps: Chain { first: self.steps, second: step }, _marker: PhantomData }
    }

    /// Finalizes the builder: constructs a grid of the given dimensions with
    /// `initializer`, exactly as `DataSet::new` does, and binds the chain to
    /// it. The pipeline takes exclusive ownership of the grid and is ready
    /// to run once.
    pub fn build<F>(self, width: usize, height: usize, depth: usize, initializer: F) -> (r:
        Pipeline<T, S>) where
        S: Step<T>,
        F: Fn((usize, usize, usize)) -> T,
        T: Send + Sync,

        requires
            0 < width,
            0 < height,
            0 < depth,
            width * height * depth <= usize::MAX,
            forall|x: usize, y: usize, z: usize|
                x < width && y < height && z < depth ==> #[trigger] call_requires(
                    initializer,
                    ((x, y, z),),
                ),
        ensures
            r.steps() == self.steps(),
            r.dataset() matches Some(g) && {
                &&& g.wf()
                &&& g.spec_width() == width
                &&& g.spec_height() == height
                &&& g.spec_depth() == depth
                &&& forall|x: usize, y: usize, z: usize|
                    g.in_bounds(x as int, y as int, z as int) ==> call_ensures(
                        initializer,
                        ((x, y, z),),
                        #[trigger] g.cell(x as int, y as int, z as int),
                    )
            },
    {
        let dataset = DataSet::new(width, height, depth, initializer).unwrap();
        Pipeline::new(self.steps, Some(dataset))
    }
}

impl<T, S> Pipeline<T, S> {
    /// The grid slot: the grid awaiting the next run, if it has not been
    /// consumed yet.
    pub closed spec fn dataset(self) -> Option<DataSet<T>> {
        self.dataset
    }

    /// The step chain this pipeline runs.
    pub closed spec fn steps(self) -> S {
        self.steps
    }

    /// A pipeline is well-formed when the grid in its slot, if any, is.
    pub open spec fn wf(self) -> bool {
        self.dataset() matches Some(g) ==> g.wf()
    }

    /// Binds a step chain to a grid slot: pass a grid to make the pipeline
    /// ready to run once, or nothing for a pipeline whose runs all report
    /// `PipelineNotReady`.
    pub fn new(steps: S, dataset: Option<DataSet<T>>) -> (r: Self)
        ensures
            r.steps() == steps,
            r.dataset() == dataset,
    {
        Pipeline { dataset, steps }
    }

    /// Runs the full step chain against the grid in the slot, in the order
    /// the steps were added, stopping at the first failure and returning
    /// that failure verbatim. The grid is consumed: on success it is handed
    /// back to the caller, mutated by every step that ran; on failure it is
    /// dropped, mutations included. Running again after the grid was
    /// consumed fails with `PipelineNotReady`.
    pub fn run(&mut self) -> (r: Result<DataSet<T>, PipelineError>) where S: Step<T>
        requires
            old(self).wf(),
        ensures
            final(self).steps() == old(self).steps(),
            final(self).dataset() is None,
            old(self).dataset() is None ==> r == Err::<DataSet<T>, PipelineError>(
                PipelineError::PipelineNotReady,
            ),
            old(self).dataset() matches Some(g) ==> exists|
                post: DataSet<T>,
                sr: PipelineStepResult,
            |
                {
                    &&& #[trigger] old(self).steps().spec_run(g, post, sr)
                    &&& post.wf()
                    &&& match sr {
                        Ok(()) => r == Ok::<DataSet<T>, PipelineError>(post),
                        Err(e) => r == Err::<DataSet<T>, PipelineError>(e),
                    }
                },
    {
        if self.dataset.is_none() {
            return Err(PipelineError::PipelineNotReady);
        }
        let mut dataset = self.dataset.take().unwrap();
        let res = self.steps.run(&mut dataset);
        let ghost post = dataset;
        let ghost sr = res;
        match res {
            Ok(()) => {
                proof {
                    assert(old(self).steps().spec_run(
                        old(self).dataset()->Some_0,
                        post,
                        sr,
                    ));
                    assert(sr is Ok);
                }
                Ok(dataset)
            },
            Err(e) => {
                proof {
                    assert(old(self).steps().spec_run(
                        old(self).dataset()->Some_0,
                        post,
                        sr,
                    ));
                }
                Err(e)
            },
        }
    }
}

} // verus!
