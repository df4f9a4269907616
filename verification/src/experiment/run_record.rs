//! A run: one execution of an experiment.

use vstd::prelude::*;
use vstd::string::*;
use crate::experiment::{now, Timestamp};

verus! {

/// Status of a run.
#[derive(Debug, Clone, Copy, PartialEq, Eq, Structural)]
pub enum RunStatus {
    /// Created but not yet started.
    Pending,
    /// Executing.
    Running,
    /// Completed successfully.
    Success,
    /// Failed with an error.
    Failed,
    /// Cancelled by the user or the system.
    Cancelled,
}

/// A single execution of an experiment.
#[derive(Debug, Clone)]
pub struct RunRecord {
    run_id: String,
    experiment_id: String,
    status: RunStatus,
    started_at: Option<Timestamp>,
    ended_at: Option<Timestamp>,
    renacer_span_id: Option<String>,
}

/// A run as contracts see it.
pub struct RunView {
    pub run_id: Seq<char>,
    pub experiment_id: Seq<char>,
    pub status: RunStatus,
    pub started_at: Option<Timestamp>,
    pub ended_at: Option<Timestamp>,
    pub renacer_span_id: Option<Seq<char>>,
}

impl View for RunRecord {
    type V = RunView;

    closed spec fn view(&self) -> RunView {
        RunView {
            run_id: self.run_id@,
            experiment_id: self.experiment_id@,
            status: self.status,
            started_at: self.started_at,
            ended_at: self.ended_at,
            renacer_span_id: match self.renacer_span_id {
                Some(s) => Some(s@),
                None => None,
            },
        }
    }
}

impl RunRecord {
    /// A new run, pending.
    pub fn new(run_id: &str, experiment_id: &str) -> (r: RunRecord)
        ensures
            r@ == (RunView {
                run_id: run_id@,
                experiment_id: experiment_id@,
                status: RunStatus::Pending,
                started_at: None,
                ended_at: None,
                renacer_span_id: None,
            }),
    {
        RunRecord {
            run_id: String::from_str(run_id),
            experiment_id: String::from_str(experiment_id),
            status: RunStatus::Pending,
            started_at: None,
            ended_at: None,
            renacer_span_id: None,
        }
    }

    /// A run with every field given, as it was stored.
    pub fn restore(
        run_id: &str,
        experiment_id: &str,
        status: RunStatus,
        started_at: Option<Timestamp>,
        ended_at: Option<Timestamp>,
        renacer_span_id: Option<&str>,
    ) -> (r: RunRecord)
        ensures
            r@ == (RunView {
                run_id: run_id@,
                experiment_id: experiment_id@,
                status,
                started_at,
                ended_at,
                renacer_span_id: match renacer_span_id {
                    Some(s) => Some(s@),
                    None => None,
                },
            }),
    {
        RunRecord {
            run_id: String::from_str(run_id),
            experiment_id: String::from_str(experiment_id),
            status,
            started_at,
            ended_at,
            renacer_span_id: match renacer_span_id {
                Some(s) => Some(String::from_str(s)),
                None => None,
            },
        }
    }

    /// A builder for a run with optional fields.
    pub fn builder(run_id: &str, experiment_id: &str) -> (b: RunRecordBuilder)
        ensures
            b.spec_parts() == (run_id@, experiment_id@, None::<Seq<char>>),
    {
        RunRecordBuilder::new(run_id, experiment_id)
    }

    /// The run id.
    pub fn run_id(&self) -> (s: &str)
        ensures
            s@ == self@.run_id,
    {
        self.run_id.as_str()
    }

    /// The id of the experiment.
    pub fn experiment_id(&self) -> (s: &str)
        ensures
            s@ == self@.experiment_id,
    {
        self.experiment_id.as_str()
    }

    /// The status.
    pub fn status(&self) -> (s: RunStatus)
        ensures
            s == self@.status,
    {
        self.status
    }

    /// When the run started, if it has.
    pub fn started_at(&self) -> (t: Option<Timestamp>)
        ensures
            t == self@.started_at,
    {
        self.started_at
    }

    /// When the run ended, if it has.
    pub fn ended_at(&self) -> (t: Option<Timestamp>)
        ensures
            t == self@.ended_at,
    {
        self.ended_at
    }

    /// The span id for distributed tracing, if set.
    pub fn renacer_span_id(&self) -> (s: Option<&str>)
        ensures
            match s {
                Some(t) => self@.renacer_span_id == Some(t@),
                None => self@.renacer_span_id is None,
            },
    {
        match &self.renacer_span_id {
            Some(s) => Some(s.as_str()),
            None => None,
        }
    }

    /// Starts the run at the given time: it is running from then on.
    pub fn start_at(&mut self, at: Timestamp)
        ensures
            final(self)@ == (RunView {
                status: RunStatus::Running,
                started_at: Some(at),
                ..old(self)@
            }),
    {
        self.status = RunStatus::Running;
        self.started_at = Some(at);
    }

    /// Starts the run now.
    pub fn start(&mut self)
        ensures
            final(self)@.started_at is Some,
            final(self)@ == (RunView {
                status: RunStatus::Running,
                started_at: final(self)@.started_at,
                ..old(self)@
            }),
    {
        self.start_at(now());
    }

    /// Completes the run with the given status at the given time.
    pub fn complete_at(&mut self, status: RunStatus, at: Timestamp)
        ensures
            final(self)@ == (RunView { status, ended_at: Some(at), ..old(self)@ }),
    {
        self.status = status;
        self.ended_at = Some(at);
    }

    /// Completes the run with the given status now.
    pub fn complete(&mut self, status: RunStatus)
        ensures
            final(self)@.ended_at is Some,
            final(self)@ == (RunView { status, ended_at: final(self)@.ended_at, ..old(self)@ }),
    {
        self.complete_at(status, now());
    }

    /// A copy of the run.
    pub fn duplicate(&self) -> (r: RunRecord)
        ensures
            r@ == self@,
    {
        RunRecord {
            run_id: self.run_id.clone(),
            experiment_id: self.experiment_id.clone(),
            status: self.status,
            started_at: self.started_at,
            ended_at: self.ended_at,
            renacer_span_id: match &self.renacer_span_id {
                Some(s) => Some(s.clone()),
                None => None,
            },
        }
    }
}

/// Builder for [`RunRecord`].
#[derive(Debug)]
pub struct RunRecordBuilder {
    run_id: String,
    experiment_id: String,
    renacer_span_id: Option<String>,
}

impl RunRecordBuilder {
    /// What the builder holds: the run id, the experiment id and the span
    /// id.
    pub closed spec fn spec_parts(&self) -> (Seq<char>, Seq<char>, Option<Seq<char>>) {
        (
            self.run_id@,
            self.experiment_id@,
            match self.renacer_span_id {
                Some(s) => Some(s@),
                None => None,
            },
        )
    }

    /// A builder with the required fields.
    pub fn new(run_id: &str, experiment_id: &str) -> (b: RunRecordBuilder)
        ensures
            b.spec_parts() == (run_id@, experiment_id@, None::<Seq<char>>),
    {
        RunRecordBuilder {
            run_id: String::from_str(run_id),
            experiment_id: String::from_str(experiment_id),
            renacer_span_id: None,
        }
    }

    /// Sets the span id for distributed tracing.
    pub fn renacer_span_id(self, span_id: &str) -> (b: RunRecordBuilder)
        ensures
            b.spec_parts() == (self.spec_parts().0, self.spec_parts().1, Some(span_id@)),
    {
        RunRecordBuilder {
            run_id: self.run_id,
            experiment_id: self.experiment_id,
            renacer_span_id: Some(String::from_str(span_id)),
        }
    }

    /// Builds the run, pending.
    pub fn build(self) -> (r: RunRecord)
        ensures
            r@ == (RunView {
                run_id: self.spec_parts().0,
                experiment_id: self.spec_parts().1,
                status: RunStatus::Pending,
                started_at: None,
                ended_at: None,
                renacer_span_id: self.spec_parts().2,
            }),
    {
        RunRecord {
            run_id: self.run_id,
            experiment_id: self.experiment_id,
            status: RunStatus::Pending,
            started_at: None,
            ended_at: None,
            renacer_span_id: self.renacer_span_id,
        }
    }
}

} // verus!
