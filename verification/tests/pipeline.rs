use layergen_rs::DataSet;
use layergen_rs::EmptyStep;
use layergen_rs::Pipeline;
use layergen_rs::PipelineBuilder;
use layergen_rs::PipelineError;
use layergen_rs::PipelineStepResult;
use layergen_rs::Step;

/// Doubles the cell at the origin.
pub struct DoubleOrigin;

impl Step<i32> for DoubleOrigin {
    fn run(&self, data: &mut DataSet<i32>) -> PipelineStepResult {
        if let Some(cell) = data.get_mut(0, 0, 0) {
            *cell *= 2;
        }
        Ok(())
    }
}

/// Adds three to the cell at the origin.
pub struct AddThreeOrigin;

impl Step<i32> for AddThreeOrigin {
    fn run(&self, data: &mut DataSet<i32>) -> PipelineStepResult {
        if let Some(cell) = data.get_mut(0, 0, 0) {
            *cell += 3;
        }
        Ok(())
    }
}

/// Always fails with a fixed reason.
pub struct AlwaysFail;

impl<T> Step<T> for AlwaysFail {
    fn run(&self, _: &mut DataSet<T>) -> PipelineStepResult {
        Err(PipelineError::StepFailure("step went wrong".into()))
    }
}

#[test]
fn build_constructs_the_grid() {
    let mut pipeline = PipelineBuilder::new().build(2, 3, 4, |(x, y, z)| x + 10 * y + 100 * z);
    let data = pipeline.run().unwrap();
    assert_eq!(data.get(1, 2, 3), Some(&321));
    assert_eq!(data.into_vec().len(), 24);
}

#[test]
fn steps_run_in_insertion_order() {
    let mut pipeline = PipelineBuilder::new()
        .add_step(DoubleOrigin)
        .add_step(AddThreeOrigin)
        .build(1, 1, 1, |_| 1);
    let data = pipeline.run().unwrap();
    // (1 * 2) + 3, not (1 + 3) * 2: insertion order is kept.
    assert_eq!(data.get(0, 0, 0), Some(&5));
}

#[test]
fn second_run_reports_pipeline_not_ready() {
    let mut pipeline = PipelineBuilder::new().build(2, 2, 2, |_| 0);
    let first = pipeline.run();
    assert!(first.is_ok());
    let second = pipeline.run();
    assert_eq!(second.err(), Some(PipelineError::PipelineNotReady));
}

#[test]
fn run_without_a_grid_reports_pipeline_not_ready() {
    let mut pipeline: Pipeline<i32, EmptyStep> = Pipeline::new(EmptyStep, None);
    assert_eq!(pipeline.run().err(), Some(PipelineError::PipelineNotReady));
}

#[test]
fn a_failing_step_surfaces_its_error() {
    let mut pipeline = PipelineBuilder::new()
        .add_step(DoubleOrigin)
        .add_step(AlwaysFail)
        .build(1, 1, 1, |_| 1);
    let result = pipeline.run();
    assert_eq!(
        result.err(),
        Some(PipelineError::StepFailure("step went wrong".to_string()))
    );
}

#[test]
fn an_empty_pipeline_hands_the_grid_back() {
    let mut pipeline = PipelineBuilder::new().build(2, 2, 2, |(x, y, z)| (x, y, z));
    let data = pipeline.run().unwrap();
    assert_eq!(data.get(1, 1, 1), Some(&(1, 1, 1)));
}
