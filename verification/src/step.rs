//! The step capability: a unit of work that transforms a grid and reports
//! success or failure, together with the two built-in combinators — the
//! identity step and the binary chain that sequences two steps and
//! short-circuits on the first failure.

use vstd::prelude::*;
use crate::data_set::DataSet;
use crate::error::PipelineError;

verus! {

/// What a step hands back: success, or an error — ordinarily
/// `StepFailure` with a human-readable reason.
pub type PipelineStepResult = Result<(), PipelineError>;

/// A transformation of a whole grid. Implementors describe their behaviour
/// with `spec_run`, a relation between the grid before the run, the grid
/// after it, and the reported outcome; `run` is then bound to that relation
/// and must keep the grid well-formed.
pub trait Step<T>: Sized {
    /// The behaviour of this step: which outcomes `(post, r)` a run starting
    /// from `pre` may produce. Unless an implementor says more, nothing is
    /// promised.
    open spec fn spec_run(&self, pre: DataSet<T>, post: DataSet<T>, r: PipelineStepResult) -> bool {
        true
    }

    /// Transforms `data` in place and reports the outcome.
    fn run(&self, data: &mut DataSet<T>) -> (r: PipelineStepResult)
        requires
            old(data).wf(),
        ensures
            final(data).wf(),
            self.spec_run(*old(data), *final(data), r),
    ;
}

/// The identity step: it mutates nothing and always succeeds.
pub struct EmptyStep;

impl<T> Step<T> for EmptyStep {
    /// Running the identity step leaves the grid unchanged and succeeds.
    open spec fn spec_run(&self, pre: DataSet<T>, post: DataSet<T>, r: PipelineStepResult) -> bool {
        post == pre && r == Ok::<(), PipelineError>(())
    }

    fn run(&self, data: &mut DataSet<T>) -> (r: PipelineStepResult) {
        Ok(())
    }
}

/// Two steps in sequence: `first` runs to completion or failure; `second`
/// runs only if `first` succeeded. Chains nest to the right as steps are
/// appended, so the step sequence is fixed at compile time.
pub struct Chain<A, B> {
    pub first: A,
    pub second: B,
}

impl<T, A: Step<T>, B: Step<T>> Step<T> for Chain<A, B> {
    /// A run of the chain is a run of `first`; if that failed, the chain
    /// stops there and returns the failure verbatim, otherwise `second` runs
    /// from the state `first` left behind and decides the outcome.
    open spec fn spec_run(&self, pre: DataSet<T>, post: DataSet<T>, r: PipelineStepResult) -> bool {
        exists|mid: DataSet<T>, r1: PipelineStepResult|
            {
                &&& #[trigger] self.first.spec_run(pre, mid, r1)
                &&& match r1 {
                    Ok(()) => self.second.spec_run(mid, post, r),
                    Err(e) => post == mid && r == Err::<(), PipelineError>(e),
                }
            }
    }

    fn run(&self, data: &mut DataSet<T>) -> (r: PipelineStepResult) {
        let r1 = self.first.run(data);
        let ghost gr1 = r1;
        match r1 {
            Ok(()) => {
                let ghost mid = *data;
                let r2 = self.second.run(data);
                proof {
                    assert(self.first.spec_run(*old(data), mid, gr1));
                    assert(gr1 is Ok);
                }
                r2
            },
            Err(e) => Err(e),
        }
    }
}

/// If every run of a chain's first step from `pre` fails, then the chain's
/// outcome from `pre` is exactly an outcome of the first step — an error,
/// with the grid just as the first step left it — and the second step has
/// contributed nothing.
pub proof fn lemma_chain_short_circuits<T, A: Step<T>, B: Step<T>>(
    c: Chain<A, B>,
    pre: DataSet<T>,
    post: DataSet<T>,
    r: PipelineStepResult,
)
    requires
        c.spec_run(pre, post, r),
        forall|mid: DataSet<T>, r1: PipelineStepResult|
            #[trigger] c.first.spec_run(pre, mid, r1) ==> r1 is Err,
    ensures
        r is Err,
        c.first.spec_run(pre, post, r),
{
    let (mid, r1) = choose|mid: DataSet<T>, r1: PipelineStepResult|
        {
            &&& #[trigger] c.first.spec_run(pre, mid, r1)
            &&& match r1 {
                Ok(()) => c.second.spec_run(mid, post, r),
                Err(e) => post == mid && r == Err::<(), PipelineError>(e),
            }
        };
    assert(r1 is Err);
}

} // verus!
