//! The in-memory store of the tracking records.

use vstd::prelude::*;
use vstd::string::*;
use crate::batch::spec_true_positions;
use crate::experiment::experiment_record::ExperimentRecord;
use crate::experiment::metric_record::{MetricRecord, MetricView};
use crate::experiment::run_record::RunRecord;
use crate::experiment::{lemma_index_of, spec_index_of};
use crate::topk::{lemma_top_k_is, select_first, spec_top_k, RankSource};

verus! {

/// The ids of experiments.
pub open spec fn spec_experiment_ids(records: Seq<ExperimentRecord>) -> Seq<Seq<char>> {
    Seq::new(records.len(), |i: int| records[i]@.experiment_id)
}

/// The ids of runs.
pub open spec fn spec_run_ids(records: Seq<RunRecord>) -> Seq<Seq<char>> {
    Seq::new(records.len(), |i: int| records[i]@.run_id)
}

/// For each metric, whether it is of the run and key.
pub open spec fn spec_series_mask(metrics: Seq<MetricRecord>, run_id: Seq<char>, key: Seq<char>) -> Seq<
    bool,
> {
    Seq::new(metrics.len(), |i: int| metrics[i]@.run_id == run_id && metrics[i]@.key == key)
}

/// The steps of the picked metrics.
pub open spec fn spec_steps(metrics: Seq<MetricRecord>, picked: Seq<usize>) -> Seq<int> {
    Seq::new(picked.len(), |j: int| metrics[picked[j] as int]@.step as int)
}

/// The time series of a run and key: its metrics by ascending step, and
/// those of one step in the order in which they were added.
pub open spec fn spec_series(metrics: Seq<MetricRecord>, run_id: Seq<char>, key: Seq<char>) -> Seq<
    MetricView,
> {
    let picked = spec_true_positions(spec_series_mask(metrics, run_id, key));
    let order = spec_top_k(spec_steps(metrics, picked), picked.len());
    Seq::new(picked.len(), |j: int| metrics[picked[order[j] as int] as int]@)
}

/// For each run, whether it is of the experiment.
pub open spec fn spec_runs_mask(runs: Seq<RunRecord>, experiment_id: Seq<char>) -> Seq<bool> {
    Seq::new(runs.len(), |i: int| runs[i]@.experiment_id == experiment_id)
}

/// The picked metrics, ranked by step.
pub struct StepRanks<'a> {
    pub metrics: &'a Vec<MetricRecord>,
    pub picked: &'a Vec<usize>,
}

impl<'a> RankSource for StepRanks<'a> {
    open spec fn spec_ready(&self) -> bool {
        forall|j: int| 0 <= j < self.picked@.len() ==> (#[trigger] self.picked@[j]) < self.metrics@.len()
    }

    open spec fn spec_source_ranks(&self) -> Seq<int> {
        spec_steps(self.metrics@, self.picked@)
    }

    fn count(&self) -> (n: usize) {
        self.picked.len()
    }

    fn rank(&self, i: usize) -> (r: i128) {
        self.metrics[self.picked[i]].step() as i128
    }
}

/// The store. Experiments and runs are kept by id, one record per id;
/// metrics are kept in the order in which they were added.
#[derive(Debug)]
pub struct ExperimentStore {
    experiments: Vec<ExperimentRecord>,
    runs: Vec<RunRecord>,
    metrics: Vec<MetricRecord>,
}

impl ExperimentStore {
    /// The experiments, in the order in which their ids were first added.
    pub closed spec fn spec_experiments(&self) -> Seq<ExperimentRecord> {
        self.experiments@
    }

    /// The runs, in the order in which their ids were first added.
    pub closed spec fn spec_runs(&self) -> Seq<RunRecord> {
        self.runs@
    }

    /// The metrics, in the order in which they were added.
    pub closed spec fn spec_metrics(&self) -> Seq<MetricRecord> {
        self.metrics@
    }

    /// An empty store.
    pub fn new() -> (s: ExperimentStore)
        ensures
            s.spec_experiments().len() == 0,
            s.spec_runs().len() == 0,
            s.spec_metrics().len() == 0,
    {
        ExperimentStore { experiments: Vec::new(), runs: Vec::new(), metrics: Vec::new() }
    }

    /// Whether the store holds nothing.
    pub fn is_empty(&self) -> (r: bool)
        ensures
            r == (self.spec_experiments().len() == 0 && self.spec_runs().len() == 0
                && self.spec_metrics().len() == 0),
    {
        self.experiments.len() == 0 && self.runs.len() == 0 && self.metrics.len() == 0
    }

    /// The number of experiments.
    pub fn experiment_count(&self) -> (n: usize)
        ensures
            n == self.spec_experiments().len(),
    {
        self.experiments.len()
    }

    /// The number of runs.
    pub fn run_count(&self) -> (n: usize)
        ensures
            n == self.spec_runs().len(),
    {
        self.runs.len()
    }

    /// The number of metrics.
    pub fn metric_count(&self) -> (n: usize)
        ensures
            n == self.spec_metrics().len(),
    {
        self.metrics.len()
    }

    fn find_experiment(&self, id: &String) -> (r: Option<usize>)
        ensures
            match r {
                Some(p) => spec_index_of(spec_experiment_ids(self.experiments@), id@) == Some(
                    p as int,
                ) && p < self.experiments@.len(),
                None => spec_index_of(spec_experiment_ids(self.experiments@), id@) is None,
            },
    {
        let n = self.experiments.len();
        let ghost ids = spec_experiment_ids(self.experiments@);
        let wanted = id.as_str();
        let mut i: usize = 0;
        while i < n
            invariant
                n == self.experiments@.len(),
                ids == spec_experiment_ids(self.experiments@),
                wanted@ == id@,
                i <= n,
                forall|j: int| 0 <= j < i ==> #[trigger] ids[j] != id@,
            decreases n - i,
        {
            let here = String::from_str(self.experiments[i].experiment_id());
            if here == *id {
                proof {
                    assert(ids[i as int] == id@);
                    lemma_index_of(ids, id@);
                }
                return Some(i);
            }
            i += 1;
        }
        proof {
            lemma_index_of(ids, id@);
        }
        None
    }

    fn find_run(&self, id: &String) -> (r: Option<usize>)
        ensures
            match r {
                Some(p) => spec_index_of(spec_run_ids(self.runs@), id@) == Some(p as int) && p
                    < self.runs@.len(),
                None => spec_index_of(spec_run_ids(self.runs@), id@) is None,
            },
    {
        let n = self.runs.len();
        let ghost ids = spec_run_ids(self.runs@);
        let mut i: usize = 0;
        while i < n
            invariant
                n == self.runs@.len(),
                ids == spec_run_ids(self.runs@),
                i <= n,
                forall|j: int| 0 <= j < i ==> #[trigger] ids[j] != id@,
            decreases n - i,
        {
            let here = String::from_str(self.runs[i].run_id());
            if here == *id {
                proof {
                    assert(ids[i as int] == id@);
                    lemma_index_of(ids, id@);
                }
                return Some(i);
            }
            i += 1;
        }
        proof {
            lemma_index_of(ids, id@);
        }
        None
    }

    /// Adds an experiment: in place of the one with its id, if there is
    /// one, and else as the last.
    pub fn add_experiment(&mut self, experiment: ExperimentRecord)
        ensures
            final(self).spec_runs() == old(self).spec_runs(),
            final(self).spec_metrics() == old(self).spec_metrics(),
            final(self).spec_experiments() == match spec_index_of(
                spec_experiment_ids(old(self).spec_experiments()),
                experiment@.experiment_id,
            ) {
                Some(p) => old(self).spec_experiments().update(p, experiment),
                None => old(self).spec_experiments().push(experiment),
            },
    {
        let id = String::from_str(experiment.experiment_id());
        match self.find_experiment(&id) {
            Some(p) => {
                self.experiments.set(p, experiment);
            },
            None => {
                self.experiments.push(experiment);
            },
        }
    }

    /// The experiment with the given id.
    pub fn get_experiment(&self, experiment_id: &str) -> (r: Option<&ExperimentRecord>)
        ensures
            match r {
                Some(e) => spec_index_of(
                    spec_experiment_ids(self.spec_experiments()),
                    experiment_id@,
                ) matches Some(p) && *e == self.spec_experiments()[p],
                None => spec_index_of(spec_experiment_ids(self.spec_experiments()), experiment_id@)
                    is None,
            },
    {
        let id = String::from_str(experiment_id);
        match self.find_experiment(&id) {
            Some(p) => Some(&self.experiments[p]),
            None => None,
        }
    }

    /// Adds a run: in place of the one with its id, if there is one, and
    /// else as the last.
    pub fn add_run(&mut self, run: RunRecord)
        ensures
            final(self).spec_experiments() == old(self).spec_experiments(),
            final(self).spec_metrics() == old(self).spec_metrics(),
            final(self).spec_runs() == match spec_index_of(
                spec_run_ids(old(self).spec_runs()),
                run@.run_id,
            ) {
                Some(p) => old(self).spec_runs().update(p, run),
                None => old(self).spec_runs().push(run),
            },
    {
        let id = String::from_str(run.run_id());
        match self.find_run(&id) {
            Some(p) => {
                self.runs.set(p, run);
            },
            None => {
                self.runs.push(run);
            },
        }
    }

    /// The run with the given id.
    pub fn get_run(&self, run_id: &str) -> (r: Option<&RunRecord>)
        ensures
            match r {
                Some(e) => spec_index_of(spec_run_ids(self.spec_runs()), run_id@) matches Some(p)
                    && *e == self.spec_runs()[p],
                None => spec_index_of(spec_run_ids(self.spec_runs()), run_id@) is None,
            },
    {
        let id = String::from_str(run_id);
        match self.find_run(&id) {
            Some(p) => Some(&self.runs[p]),
            None => None,
        }
    }

    /// The runs of an experiment, in the order in which their ids were
    /// first added.
    pub fn get_runs_for_experiment(&self, experiment_id: &str) -> (r: Vec<&RunRecord>)
        ensures
            ({
                let picked = spec_true_positions(spec_runs_mask(self.spec_runs(), experiment_id@));
                &&& r@.len() == picked.len()
                &&& forall|j: int|
                    0 <= j < r@.len() ==> *(#[trigger] r@[j]) == self.spec_runs()[picked[j] as int]
            }),
    {
        let id = String::from_str(experiment_id);
        let n = self.runs.len();
        let ghost mask = spec_runs_mask(self.runs@, experiment_id@);
        let ghost mut picked: Seq<usize> = Seq::empty();
        let mut found: Vec<&RunRecord> = Vec::new();
        let mut i: usize = 0;
        while i < n
            invariant
                n == self.runs@.len(),
                mask == spec_runs_mask(self.runs@, experiment_id@),
                id@ == experiment_id@,
                i <= n,
                picked == spec_true_positions(mask.subrange(0, i as int)),
                found@.len() == picked.len(),
                forall|j: int| 0 <= j < picked.len() ==> (#[trigger] picked[j]) < i,
                forall|j: int|
                    0 <= j < found@.len() ==> *(#[trigger] found@[j]) == self.runs@[picked[j] as int],
            decreases n - i,
        {
            proof {
                let next = mask.subrange(0, i + 1);
                assert(next.drop_last() =~= mask.subrange(0, i as int));
                assert(next.last() == mask[i as int]);
            }
            let here = String::from_str(self.runs[i].experiment_id());
            if here == id {
                found.push(&self.runs[i]);
                proof {
                    picked = picked.push(i);
                }
            }
            i += 1;
        }
        assert(mask.subrange(0, n as int) =~= mask);
        found
    }

    /// Adds a metric.
    pub fn add_metric(&mut self, metric: MetricRecord)
        ensures
            final(self).spec_experiments() == old(self).spec_experiments(),
            final(self).spec_runs() == old(self).spec_runs(),
            final(self).spec_metrics() == old(self).spec_metrics().push(metric),
    {
        self.metrics.push(metric);
    }

    /// The time series of a run and key: see [`spec_series`].
    pub fn get_metrics_for_run(&self, run_id: &str, key: &str) -> (r: Vec<MetricRecord>)
        ensures
            Seq::new(r@.len(), |j: int| r@[j]@) == spec_series(self.spec_metrics(), run_id@, key@),
    {
        let run_id_owned = String::from_str(run_id);
        let key_owned = String::from_str(key);
        let n = self.metrics.len();
        let ghost mask = spec_series_mask(self.metrics@, run_id@, key@);
        let mut picked: Vec<usize> = Vec::new();
        let mut i: usize = 0;
        while i < n
            invariant
                n == self.metrics@.len(),
                mask == spec_series_mask(self.metrics@, run_id@, key@),
                run_id_owned@ == run_id@,
                key_owned@ == key@,
                i <= n,
                picked@ == spec_true_positions(mask.subrange(0, i as int)),
                forall|j: int| 0 <= j < picked@.len() ==> (#[trigger] picked@[j]) < i,
            decreases n - i,
        {
            proof {
                let next = mask.subrange(0, i + 1);
                assert(next.drop_last() =~= mask.subrange(0, i as int));
                assert(next.last() == mask[i as int]);
            }
            if self.metrics[i].in_series(&run_id_owned, &key_owned) {
                picked.push(i);
            }
            i += 1;
        }
        assert(mask.subrange(0, n as int) =~= mask);
        let m = picked.len();
        let mut out: Vec<MetricRecord> = Vec::with_capacity(m);
        if m == 0 {
            assert(Seq::new(out@.len(), |j: int| out@[j]@) =~= spec_series(
                self.metrics@,
                run_id@,
                key@,
            ));
            return out;
        }
        let source = StepRanks { metrics: &self.metrics, picked: &picked };
        let order = select_first(&source, m);
        proof {
            lemma_top_k_is(spec_steps(self.metrics@, picked@), m as nat, order@);
        }
        let mut j: usize = 0;
        while j < m
            invariant
                m == picked@.len(),
                order@.len() == m,
                forall|t: int| 0 <= t < m ==> (#[trigger] order@[t]) < m,
                forall|t: int| 0 <= t < m ==> (#[trigger] picked@[t]) < self.metrics@.len(),
                j <= m,
                out@.len() == j,
                forall|t: int|
                    0 <= t < j ==> (#[trigger] out@[t])@ == self.metrics@[picked@[order@[t] as int] as int]@,
            decreases m - j,
        {
            out.push(self.metrics[picked[order[j]]].duplicate());
            j += 1;
        }
        assert(Seq::new(out@.len(), |j: int| out@[j]@) =~= spec_series(
            self.metrics@,
            run_id@,
            key@,
        ));
        out
    }
}

impl Default for ExperimentStore {
    fn default() -> (s: ExperimentStore)
        ensures
            s.spec_experiments().len() == 0,
            s.spec_runs().len() == 0,
            s.spec_metrics().len() == 0,
    {
        ExperimentStore::new()
    }
}

} // verus!
