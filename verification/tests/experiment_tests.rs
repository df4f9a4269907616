use trueno_db::experiment::artifact_record::ArtifactRecord;
use trueno_db::experiment::experiment_record::{ExperimentRecord, ExperimentRecordBuilder};
use trueno_db::experiment::metric_record::{MetricRecord, MetricRecordBuilder};
use trueno_db::experiment::run_record::{RunRecord, RunRecordBuilder, RunStatus};
use trueno_db::experiment::store::ExperimentStore;
use trueno_db::experiment::Timestamp;

fn metric(run: &str, key: &str, step: u64, value: f64) -> MetricRecord {
    MetricRecord::new(run, key, step, value.to_bits())
}

fn value(m: &MetricRecord) -> f64 {
    f64::from_bits(m.value())
}

#[test]
fn test_artifact_record_new() {
    let artifact = ArtifactRecord::new("run-1", "model.pt", "sha256:abc123", 1000);
    assert_eq!(artifact.run_id(), "run-1");
    assert_eq!(artifact.key(), "model.pt");
    assert_eq!(artifact.cas_hash(), "sha256:abc123");
    assert_eq!(artifact.size_bytes(), 1000);
}

#[test]
fn test_artifact_cas_hash_format() {
    let artifact = ArtifactRecord::new("run-1", "data.bin", "sha256:e3b0c44298fc1c14", 0);
    assert!(artifact.cas_hash().starts_with("sha256:"));
}

#[test]
fn test_experiment_record_new() {
    let record = ExperimentRecord::new("test-id", "test-name");
    assert_eq!(record.experiment_id(), "test-id");
    assert_eq!(record.name(), "test-name");
}

#[test]
fn test_experiment_record_builder() {
    let config: serde_json::Value = serde_json::from_str("{\"key\": \"value\"}").unwrap();
    let record =
        ExperimentRecordBuilder::new("test-id", "test-name").config(config.clone()).build();
    assert_eq!(record.experiment_id(), "test-id");
    assert_eq!(record.config(), Some(&config));
}

#[test]
fn test_metric_record_new() {
    let m = metric("run-1", "loss", 0, 0.5);
    assert_eq!(m.run_id(), "run-1");
    assert_eq!(m.key(), "loss");
    assert_eq!(m.step(), 0);
    assert!((value(&m) - 0.5).abs() < f64::EPSILON);
}

#[test]
fn test_metric_record_builder() {
    let at = Timestamp { seconds: 1_700_000_000, nanos: 5 };
    let m = MetricRecordBuilder::new("run-1", "loss", 3, 0.25f64.to_bits()).timestamp(at).build();
    assert_eq!(m.step(), 3);
    assert_eq!(m.timestamp(), at);
    assert_eq!(value(&m), 0.25);
}

#[test]
fn test_run_status_default() {
    let run = RunRecord::new("run-1", "exp-1");
    assert_eq!(run.status(), RunStatus::Pending);
}

#[test]
fn test_run_lifecycle() {
    let mut run = RunRecord::new("run-1", "exp-1");
    run.start();
    assert_eq!(run.status(), RunStatus::Running);
    run.complete(RunStatus::Success);
    assert_eq!(run.status(), RunStatus::Success);
}

#[test]
fn test_store_default() {
    let store = ExperimentStore::new();
    assert!(store.is_empty());
    assert_eq!(store.experiment_count(), 0);
    assert_eq!(store.run_count(), 0);
    assert_eq!(store.metric_count(), 0);
    assert!(ExperimentStore::default().is_empty());
}

#[test]
fn test_store_add_and_get() {
    let mut store = ExperimentStore::new();
    store.add_experiment(ExperimentRecord::new("exp-1", "Test"));
    store.add_run(RunRecord::new("run-1", "exp-1"));
    store.add_metric(metric("run-1", "loss", 0, 0.5));
    assert!(!store.is_empty());
    assert!(store.get_experiment("exp-1").is_some());
    assert!(store.get_run("run-1").is_some());
}

#[test]
fn test_get_metrics_for_run_ordering() {
    let mut store = ExperimentStore::new();
    store.add_metric(metric("run-1", "loss", 2, 0.2));
    store.add_metric(metric("run-1", "loss", 0, 0.0));
    store.add_metric(metric("run-1", "loss", 1, 0.1));
    let metrics = store.get_metrics_for_run("run-1", "loss");
    assert_eq!(metrics.len(), 3);
    assert_eq!(metrics[0].step(), 0);
    assert_eq!(metrics[1].step(), 1);
    assert_eq!(metrics[2].step(), 2);
}

#[test]
fn test_experiment_record_creation() {
    let record = ExperimentRecord::new("exp-001", "My Experiment");
    assert_eq!(record.experiment_id(), "exp-001");
    assert_eq!(record.name(), "My Experiment");
    assert!(record.created_at().seconds > 0);
    assert!(record.config().is_none());
}

#[test]
fn test_experiment_record_with_config() {
    let config: serde_json::Value =
        serde_json::from_str("{\"learning_rate\": 0.01, \"batch_size\": 32, \"model\": \"resnet50\"}")
            .unwrap();
    let record = ExperimentRecord::builder("exp-002", "Training Run").config(config.clone()).build();
    assert_eq!(record.experiment_id(), "exp-002");
    assert_eq!(record.config(), Some(&config));
}

#[test]
fn test_experiment_record_equality() {
    let record1 = ExperimentRecord::new("exp-004", "Test");
    let record2 = ExperimentRecord::new("exp-004", "Test");
    assert_eq!(record1.experiment_id(), record2.experiment_id());
    assert_eq!(record1.name(), record2.name());
    let at = Timestamp { seconds: 10, nanos: 0 };
    let fixed = ExperimentRecord::builder("exp-004", "Test").created_at(at).build();
    assert_eq!(fixed.created_at(), at);
}

#[test]
fn test_run_record_creation() {
    let run = RunRecord::new("run-001", "exp-001");
    assert_eq!(run.run_id(), "run-001");
    assert_eq!(run.experiment_id(), "exp-001");
    assert_eq!(run.status(), RunStatus::Pending);
    assert!(run.started_at().is_none());
    assert!(run.ended_at().is_none());
    assert!(run.renacer_span_id().is_none());
}

#[test]
fn test_run_record_start() {
    let mut run = RunRecord::new("run-002", "exp-001");
    run.start();
    assert_eq!(run.status(), RunStatus::Running);
    assert!(run.started_at().is_some());
    assert!(run.ended_at().is_none());
}

#[test]
fn test_run_record_complete_success() {
    let mut run = RunRecord::new("run-003", "exp-001");
    run.start();
    run.complete(RunStatus::Success);
    assert_eq!(run.status(), RunStatus::Success);
    assert!(run.started_at().is_some());
    assert!(run.ended_at().is_some());
    assert!(run.started_at().unwrap().not_after(run.ended_at().unwrap()));
}

#[test]
fn test_run_record_complete_failed() {
    let mut run = RunRecord::new("run-004", "exp-001");
    run.start();
    run.complete(RunStatus::Failed);
    assert_eq!(run.status(), RunStatus::Failed);
}

#[test]
fn test_run_record_with_renacer_span() {
    let run = RunRecord::builder("run-005", "exp-001").renacer_span_id("span-abc-123").build();
    assert_eq!(run.renacer_span_id(), Some("span-abc-123"));
    let run = RunRecordBuilder::new("run-006", "exp-002").build();
    assert_eq!(run.renacer_span_id(), None);
    assert_eq!(run.run_id(), "run-006");
    assert_eq!(run.experiment_id(), "exp-002");
    assert_eq!(run.status(), RunStatus::Pending);
}

#[test]
fn test_run_at_given_times() {
    let mut run = RunRecord::builder("r", "e").renacer_span_id("s").build();
    let t1 = Timestamp { seconds: 100, nanos: 999_999_999 };
    let t2 = Timestamp { seconds: 101, nanos: 0 };
    run.start_at(t1);
    assert_eq!(run.started_at(), Some(t1));
    assert_eq!(run.ended_at(), None);
    run.complete_at(RunStatus::Cancelled, t2);
    assert_eq!(run.status(), RunStatus::Cancelled);
    assert_eq!(run.started_at(), Some(t1));
    assert_eq!(run.ended_at(), Some(t2));
    assert_eq!(run.renacer_span_id(), Some("s"));
    assert!(t1.not_after(t2));
    assert!(!t2.not_after(t1));
    assert!(t1.not_after(t1));
    let copy = run.duplicate();
    assert_eq!(copy.ended_at(), Some(t2));
    assert_eq!(copy.run_id(), "r");
}

#[test]
fn test_run_status_variants() {
    assert_eq!(format!("{:?}", RunStatus::Pending), "Pending");
    assert_eq!(format!("{:?}", RunStatus::Running), "Running");
    assert_eq!(format!("{:?}", RunStatus::Success), "Success");
    assert_eq!(format!("{:?}", RunStatus::Failed), "Failed");
    assert_eq!(format!("{:?}", RunStatus::Cancelled), "Cancelled");
}

#[test]
fn test_metric_record_creation() {
    let m = metric("run-001", "loss", 0, 0.5);
    assert_eq!(m.run_id(), "run-001");
    assert_eq!(m.key(), "loss");
    assert_eq!(m.step(), 0);
    assert!((value(&m) - 0.5).abs() < f64::EPSILON);
    assert!(m.timestamp().seconds > 0);
}

#[test]
fn test_metric_record_with_explicit_timestamp() {
    let ts = Timestamp { seconds: 1_704_067_200, nanos: 0 };
    let m = MetricRecord::builder("run-001", "accuracy", 100, 0.95f64.to_bits()).timestamp(ts).build();
    assert_eq!(m.timestamp(), ts);
}

#[test]
fn test_metric_record_ordering_by_step() {
    let m1 = metric("run-001", "loss", 0, 1.0);
    let m2 = metric("run-001", "loss", 1, 0.9);
    let m3 = metric("run-001", "loss", 2, 0.8);
    assert!(m1.step() < m2.step());
    assert!(m2.step() < m3.step());
}

#[test]
fn test_metric_record_time_series_batch() {
    let metrics: Vec<MetricRecord> =
        (0..100).map(|step| metric("run-001", "loss", step, 1.0 / (step as f64 + 1.0))).collect();
    assert_eq!(metrics.len(), 100);
    assert_eq!(metrics[0].step(), 0);
    assert_eq!(metrics[99].step(), 99);
    assert!(value(&metrics[0]) > value(&metrics[99]));
}

#[test]
fn test_artifact_record_creation() {
    let artifact =
        ArtifactRecord::new("run-001", "model.pt", "sha256:abc123def456", 1024 * 1024 * 100);
    assert_eq!(artifact.run_id(), "run-001");
    assert_eq!(artifact.key(), "model.pt");
    assert_eq!(artifact.cas_hash(), "sha256:abc123def456");
    assert_eq!(artifact.size_bytes(), 100 * 1024 * 1024);
    assert!(artifact.created_at().seconds > 0);
    let at = Timestamp { seconds: 7, nanos: 8 };
    assert_eq!(ArtifactRecord::new_at("r", "k", "h", 1, at).created_at(), at);
}

#[test]
fn test_artifact_record_cas_hash_format() {
    let artifact = ArtifactRecord::new("run-001", "data.bin", "sha256:e3b0c44298fc1c14", 0);
    assert!(artifact.cas_hash().starts_with("sha256:"));
}

#[test]
fn test_experiment_run_metric_relationship() {
    let experiment = ExperimentRecord::new("exp-001", "Integration Test");
    let run = RunRecord::new("run-001", experiment.experiment_id());
    let m = metric(run.run_id(), "accuracy", 0, 0.95);
    assert_eq!(run.experiment_id(), experiment.experiment_id());
    assert_eq!(m.run_id(), run.run_id());
}

#[test]
fn test_full_experiment_lifecycle() {
    let config: serde_json::Value = serde_json::from_str("{\"epochs\": 10}").unwrap();
    let experiment = ExperimentRecord::builder("exp-lifecycle", "Full Test").config(config).build();
    let mut run = RunRecord::builder("run-lifecycle", experiment.experiment_id())
        .renacer_span_id("span-lifecycle")
        .build();
    run.start();
    let metrics: Vec<MetricRecord> = (0..10)
        .map(|epoch| metric(run.run_id(), "epoch_loss", epoch, 1.0 / (epoch as f64 + 1.0)))
        .collect();
    let artifact = ArtifactRecord::new(run.run_id(), "final_model.pt", "sha256:final", 500_000);
    run.complete(RunStatus::Success);
    assert_eq!(run.status(), RunStatus::Success);
    assert_eq!(metrics.len(), 10);
    assert_eq!(artifact.run_id(), run.run_id());
}

#[test]
fn test_experiment_store_creation() {
    let store = ExperimentStore::new();
    assert!(store.is_empty());
}

#[test]
fn test_experiment_store_add_metric() {
    let mut store = ExperimentStore::new();
    store.add_metric(metric("run-001", "loss", 0, 0.5));
    assert!(!store.is_empty());
    assert_eq!(store.metric_count(), 1);
}

#[test]
fn test_experiment_store_add_multiple_metrics() {
    let mut store = ExperimentStore::new();
    for step in 0..10 {
        store.add_metric(metric("run-001", "loss", step, 1.0 / (step as f64 + 1.0)));
        store.add_metric(metric("run-001", "accuracy", step, step as f64 / 10.0));
        store.add_metric(metric("run-002", "loss", step, 0.5 / (step as f64 + 1.0)));
    }
    assert_eq!(store.metric_count(), 30);
}

#[test]
fn test_get_metrics_for_run_single_key() {
    let mut store = ExperimentStore::new();
    for step in 0..5 {
        store.add_metric(metric("run-001", "loss", step, 1.0 / (step as f64 + 1.0)));
    }
    for step in 0..5 {
        store.add_metric(metric("run-002", "loss", step, 0.5));
    }
    let metrics = store.get_metrics_for_run("run-001", "loss");
    assert_eq!(metrics.len(), 5);
    for m in &metrics {
        assert_eq!(m.run_id(), "run-001");
        assert_eq!(m.key(), "loss");
    }
}

#[test]
fn test_get_metrics_for_run_ordered_by_step() {
    let mut store = ExperimentStore::new();
    store.add_metric(metric("run-001", "loss", 3, 0.3));
    store.add_metric(metric("run-001", "loss", 1, 0.1));
    store.add_metric(metric("run-001", "loss", 4, 0.4));
    store.add_metric(metric("run-001", "loss", 0, 0.0));
    store.add_metric(metric("run-001", "loss", 2, 0.2));
    let metrics = store.get_metrics_for_run("run-001", "loss");
    assert_eq!(metrics.len(), 5);
    for (i, m) in metrics.iter().enumerate() {
        assert_eq!(m.step(), i as u64);
        assert_eq!(value(m), i as f64 / 10.0);
    }
}

#[test]
fn test_get_metrics_keeps_the_order_of_equal_steps() {
    let mut store = ExperimentStore::new();
    store.add_metric(metric("r", "k", 5, 1.0));
    store.add_metric(metric("r", "other", 5, 9.0));
    store.add_metric(metric("r", "k", 1, 2.0));
    store.add_metric(metric("r", "k", 5, 3.0));
    store.add_metric(metric("x", "k", 0, 9.0));
    store.add_metric(metric("r", "k", u64::MAX, 4.0));
    store.add_metric(metric("r", "k", 1, 5.0));
    let series = store.get_metrics_for_run("r", "k");
    let got: Vec<(u64, f64)> = series.iter().map(|m| (m.step(), value(m))).collect();
    assert_eq!(got, vec![(1, 2.0), (1, 5.0), (5, 1.0), (5, 3.0), (u64::MAX, 4.0)]);
}

#[test]
fn test_get_metrics_for_run_empty_result() {
    let mut store = ExperimentStore::new();
    store.add_metric(metric("run-001", "loss", 0, 0.5));
    assert!(store.get_metrics_for_run("run-999", "loss").is_empty());
    assert!(store.get_metrics_for_run("run-001", "accuracy").is_empty());
}

#[test]
fn test_get_metrics_for_run_multiple_keys() {
    let mut store = ExperimentStore::new();
    for step in 0..5 {
        store.add_metric(metric("run-001", "loss", step, 1.0));
        store.add_metric(metric("run-001", "accuracy", step, 0.9));
        store.add_metric(metric("run-001", "f1_score", step, 0.85));
    }
    assert_eq!(store.get_metrics_for_run("run-001", "loss").len(), 5);
    assert_eq!(store.get_metrics_for_run("run-001", "accuracy").len(), 5);
    assert_eq!(store.get_metrics_for_run("run-001", "f1_score").len(), 5);
}

#[test]
fn test_experiment_store_with_experiments_and_runs() {
    let mut store = ExperimentStore::new();
    store.add_experiment(ExperimentRecord::new("exp-001", "Test Experiment"));
    store.add_run(RunRecord::new("run-001", "exp-001"));
    store.add_run(RunRecord::new("run-002", "exp-001"));
    store.add_metric(metric("run-001", "loss", 0, 0.5));
    store.add_metric(metric("run-002", "loss", 0, 0.6));
    assert_eq!(store.experiment_count(), 1);
    assert_eq!(store.run_count(), 2);
    assert_eq!(store.metric_count(), 2);
}

#[test]
fn test_experiment_store_get_experiment() {
    let mut store = ExperimentStore::new();
    store.add_experiment(ExperimentRecord::new("exp-001", "Test Experiment"));
    let retrieved = store.get_experiment("exp-001");
    assert!(retrieved.is_some());
    assert_eq!(retrieved.unwrap().name(), "Test Experiment");
    assert!(store.get_experiment("exp-999").is_none());
}

#[test]
fn test_store_keeps_one_record_per_id() {
    let mut store = ExperimentStore::new();
    store.add_experiment(ExperimentRecord::new("a", "first"));
    store.add_experiment(ExperimentRecord::new("b", "second"));
    store.add_experiment(ExperimentRecord::new("a", "third"));
    assert_eq!(store.experiment_count(), 2);
    assert_eq!(store.get_experiment("a").unwrap().name(), "third");
    assert_eq!(store.get_experiment("b").unwrap().name(), "second");
    let mut run = RunRecord::new("r", "a");
    store.add_run(run.duplicate());
    run.start();
    store.add_run(run);
    assert_eq!(store.run_count(), 1);
    assert_eq!(store.get_run("r").unwrap().status(), RunStatus::Running);
    assert!(store.get_run("zz").is_none());
}

#[test]
fn test_experiment_store_get_runs_for_experiment() {
    let mut store = ExperimentStore::new();
    store.add_run(RunRecord::new("run-001", "exp-001"));
    store.add_run(RunRecord::new("run-002", "exp-001"));
    store.add_run(RunRecord::new("run-003", "exp-002"));
    let runs = store.get_runs_for_experiment("exp-001");
    assert_eq!(runs.len(), 2);
    assert_eq!(runs[0].run_id(), "run-001");
    assert_eq!(runs[1].run_id(), "run-002");
    for run in runs {
        assert_eq!(run.experiment_id(), "exp-001");
    }
    assert!(store.get_runs_for_experiment("none").is_empty());
}

#[test]
fn test_metric_record_ordering() {
    let m1 = metric("run-1", "loss", 0, 1.0);
    let m2 = metric("run-1", "loss", 1, 0.9);
    assert!(m1.step() < m2.step());
}
