//! An experiment: the root of the tracking records.

use vstd::prelude::*;
use vstd::string::*;
use crate::experiment::{now, Timestamp};

verus! {

#[verifier::external_type_specification]
#[verifier::external_body]
pub struct ExJsonValue(serde_json::Value);

/// A tracked experiment. The configuration is a JSON value, carried as it
/// is.
#[derive(Debug, Clone)]
pub struct ExperimentRecord {
    experiment_id: String,
    name: String,
    created_at: Timestamp,
    config: Option<serde_json::Value>,
}

/// An experiment as contracts see it.
pub struct ExperimentView {
    pub experiment_id: Seq<char>,
    pub name: Seq<char>,
    pub created_at: Timestamp,
    pub config: Option<serde_json::Value>,
}

impl View for ExperimentRecord {
    type V = ExperimentView;

    closed spec fn view(&self) -> ExperimentView {
        ExperimentView {
            experiment_id: self.experiment_id@,
            name: self.name@,
            created_at: self.created_at,
            config: self.config,
        }
    }
}

impl ExperimentRecord {
    /// An experiment created now, without a configuration.
    pub fn new(experiment_id: &str, name: &str) -> (r: ExperimentRecord)
        ensures
            r@ == (ExperimentView {
                experiment_id: experiment_id@,
                name: name@,
                created_at: r@.created_at,
                config: None,
            }),
    {
        ExperimentRecordBuilder::new(experiment_id, name).build()
    }

    /// A builder for an experiment with optional fields.
    pub fn builder(experiment_id: &str, name: &str) -> (b: ExperimentRecordBuilder)
        ensures
            b@ == (ExperimentView {
                experiment_id: experiment_id@,
                name: name@,
                created_at: b@.created_at,
                config: None,
            }),
    {
        ExperimentRecordBuilder::new(experiment_id, name)
    }

    /// The experiment id.
    pub fn experiment_id(&self) -> (s: &str)
        ensures
            s@ == self@.experiment_id,
    {
        self.experiment_id.as_str()
    }

    /// The name.
    pub fn name(&self) -> (s: &str)
        ensures
            s@ == self@.name,
    {
        self.name.as_str()
    }

    /// When the experiment was created.
    pub fn created_at(&self) -> (t: Timestamp)
        ensures
            t == self@.created_at,
    {
        self.created_at
    }

    /// The configuration, if any.
    pub fn config(&self) -> (c: Option<&serde_json::Value>)
        ensures
            match c {
                Some(v) => self@.config == Some(*v),
                None => self@.config is None,
            },
    {
        match &self.config {
            Some(v) => Some(v),
            None => None,
        }
    }
}

/// Builder for [`ExperimentRecord`].
#[derive(Debug)]
pub struct ExperimentRecordBuilder {
    experiment_id: String,
    name: String,
    created_at: Timestamp,
    config: Option<serde_json::Value>,
}

impl View for ExperimentRecordBuilder {
    type V = ExperimentView;

    closed spec fn view(&self) -> ExperimentView {
        ExperimentView {
            experiment_id: self.experiment_id@,
            name: self.name@,
            created_at: self.created_at,
            config: self.config,
        }
    }
}

impl ExperimentRecordBuilder {
    /// A builder with the required fields and the time of now.
    pub fn new(experiment_id: &str, name: &str) -> (b: ExperimentRecordBuilder)
        ensures
            b@ == (ExperimentView {
                experiment_id: experiment_id@,
                name: name@,
                created_at: b@.created_at,
                config: None,
            }),
    {
        ExperimentRecordBuilder {
            experiment_id: String::from_str(experiment_id),
            name: String::from_str(name),
            created_at: now(),
            config: None,
        }
    }

    /// Sets the configuration.
    pub fn config(self, config: serde_json::Value) -> (b: ExperimentRecordBuilder)
        ensures
            b@ == (ExperimentView { config: Some(config), ..self@ }),
    {
        ExperimentRecordBuilder {
            experiment_id: self.experiment_id,
            name: self.name,
            created_at: self.created_at,
            config: Some(config),
        }
    }

    /// Sets the creation time.
    pub fn created_at(self, created_at: Timestamp) -> (b: ExperimentRecordBuilder)
        ensures
            b@ == (ExperimentView { created_at, ..self@ }),
    {
        ExperimentRecordBuilder {
            experiment_id: self.experiment_id,
            name: self.name,
            created_at,
            config: self.config,
        }
    }

    /// Builds the experiment.
    pub fn build(self) -> (r: ExperimentRecord)
        ensures
            r@ == self@,
    {
        ExperimentRecord {
            experiment_id: self.experiment_id,
            name: self.name,
            created_at: self.created_at,
            config: self.config,
        }
    }
}

} // verus!
