use layergen_rs::Chain;
use layergen_rs::DataSet;
use layergen_rs::EmptyStep;
use layergen_rs::PipelineError;
use layergen_rs::PipelineStepResult;
use layergen_rs::Step;

pub struct FailingStep;

impl<T> Step<T> for FailingStep {
    fn run(&self, _: &mut DataSet<T>) -> PipelineStepResult {
        Err(PipelineError::StepFailure("Planned error".into()))
    }
}

/// Adds `value` to the cell at `(slot, 0, 0)`, then fails if asked to: a
/// step whose side effect shows whether it ran.
pub struct MarkStep {
    pub slot: usize,
    pub value: i32,
    pub fail: bool,
}

impl Step<i32> for MarkStep {
    fn run(&self, data: &mut DataSet<i32>) -> PipelineStepResult {
        if let Some(cell) = data.get_mut(self.slot, 0, 0) {
            *cell += self.value;
        }
        if self.fail {
            Err(PipelineError::StepFailure("Planned error".into()))
        } else {
            Ok(())
        }
    }
}

#[test]
fn run_step() {
    let mut data = DataSet::new(5, 5, 5, |_| 0).unwrap();

    let step = EmptyStep {};
    let result = step.run(&mut data);

    assert!(result.is_ok());
}

#[test]
fn run_failing_step() {
    let mut data = DataSet::new(5, 5, 5, |_| 0).unwrap();

    let step = FailingStep {};
    let result = step.run(&mut data);

    assert!(result.is_err());
}

#[test]
fn empty_step_leaves_the_grid_unchanged() {
    let mut data = DataSet::new(2, 2, 2, |(x, y, z)| 100 * x + 10 * y + z).unwrap();
    let result = EmptyStep.run(&mut data);
    assert_eq!(result, Ok(()));
    for x in 0..2 {
        for y in 0..2 {
            for z in 0..2 {
                assert_eq!(data.get(x, y, z), Some(&(100 * x + 10 * y + z)));
            }
        }
    }
}

#[test]
fn chain_runs_first_then_second() {
    let mut data = DataSet::new(2, 1, 1, |_| 0).unwrap();
    let chain = Chain {
        first: MarkStep { slot: 0, value: 1, fail: false },
        second: MarkStep { slot: 1, value: 1, fail: false },
    };
    assert_eq!(chain.run(&mut data), Ok(()));
    assert_eq!(data.get(0, 0, 0), Some(&1));
    assert_eq!(data.get(1, 0, 0), Some(&1));
}

#[test]
fn chain_short_circuits_when_first_fails() {
    let mut data = DataSet::new(2, 1, 1, |_| 0).unwrap();
    let chain = Chain {
        first: MarkStep { slot: 0, value: 1, fail: true },
        second: MarkStep { slot: 1, value: 1, fail: false },
    };
    let result = chain.run(&mut data);
    assert_eq!(
        result,
        Err(PipelineError::StepFailure("Planned error".to_string()))
    );
    assert_eq!(data.get(0, 0, 0), Some(&1));
    assert_eq!(data.get(1, 0, 0), Some(&0));
}
