//! A metric: one point of a time series of a run.

use vstd::prelude::*;
use vstd::string::*;
use crate::experiment::{now, Timestamp};

verus! {

/// One data point. Points of one run and key form a time series, ordered
/// by step. The value is a 64-bit floating-point number, held as its bit
/// pattern.
#[derive(Debug, Clone)]
pub struct MetricRecord {
    run_id: String,
    key: String,
    step: u64,
    value_bits: u64,
    timestamp: Timestamp,
}

/// A metric as contracts see it.
pub struct MetricView {
    pub run_id: Seq<char>,
    pub key: Seq<char>,
    pub step: u64,
    pub value_bits: u64,
    pub timestamp: Timestamp,
}

impl View for MetricRecord {
    type V = MetricView;

    closed spec fn view(&self) -> MetricView {
        MetricView {
            run_id: self.run_id@,
            key: self.key@,
            step: self.step,
            value_bits: self.value_bits,
            timestamp: self.timestamp,
        }
    }
}

impl MetricRecord {
    /// A metric recorded now.
    pub fn new(run_id: &str, key: &str, step: u64, value_bits: u64) -> (r: MetricRecord)
        ensures
            r@ == (MetricView {
                run_id: run_id@,
                key: key@,
                step,
                value_bits,
                timestamp: r@.timestamp,
            }),
    {
        MetricRecordBuilder::new(run_id, key, step, value_bits).build()
    }

    /// A builder for a metric with optional fields.
    pub fn builder(run_id: &str, key: &str, step: u64, value_bits: u64) -> (b: MetricRecordBuilder)
        ensures
            b@ == (MetricView {
                run_id: run_id@,
                key: key@,
                step,
                value_bits,
                timestamp: b@.timestamp,
            }),
    {
        MetricRecordBuilder::new(run_id, key, step, value_bits)
    }

    /// The run id.
    pub fn run_id(&self) -> (s: &str)
        ensures
            s@ == self@.run_id,
    {
        self.run_id.as_str()
    }

    /// The name of the metric.
    pub fn key(&self) -> (s: &str)
        ensures
            s@ == self@.key,
    {
        self.key.as_str()
    }

    /// The step.
    pub fn step(&self) -> (n: u64)
        ensures
            n == self@.step,
    {
        self.step
    }

    /// The bit pattern of the value.
    pub fn value(&self) -> (bits: u64)
        ensures
            bits == self@.value_bits,
    {
        self.value_bits
    }

    /// When the metric was recorded.
    pub fn timestamp(&self) -> (t: Timestamp)
        ensures
            t == self@.timestamp,
    {
        self.timestamp
    }

    /// Whether the metric belongs to the series of a run and key.
    pub fn in_series(&self, run_id: &String, key: &String) -> (r: bool)
        ensures
            r == (self@.run_id == run_id@ && self@.key == key@),
    {
        self.run_id == *run_id && self.key == *key
    }

    /// A copy of the metric.
    pub fn duplicate(&self) -> (r: MetricRecord)
        ensures
            r@ == self@,
    {
        MetricRecord {
            run_id: self.run_id.clone(),
            key: self.key.clone(),
            step: self.step,
            value_bits: self.value_bits,
            timestamp: self.timestamp,
        }
    }
}

/// Builder for [`MetricRecord`].
#[derive(Debug)]
pub struct MetricRecordBuilder {
    run_id: String,
    key: String,
    step: u64,
    value_bits: u64,
    timestamp: Timestamp,
}

impl View for MetricRecordBuilder {
    type V = MetricView;

    closed spec fn view(&self) -> MetricView {
        MetricView {
            run_id: self.run_id@,
            key: self.key@,
            step: self.step,
            value_bits: self.value_bits,
            timestamp: self.timestamp,
        }
    }
}

impl MetricRecordBuilder {
    /// A builder with the required fields and the time of now.
    pub fn new(run_id: &str, key: &str, step: u64, value_bits: u64) -> (b: MetricRecordBuilder)
        ensures
            b@ == (MetricView {
                run_id: run_id@,
                key: key@,
                step,
                value_bits,
                timestamp: b@.timestamp,
            }),
    {
        MetricRecordBuilder {
            run_id: String::from_str(run_id),
            key: String::from_str(key),
            step,
            value_bits,
            timestamp: now(),
        }
    }

    /// Sets the time.
    pub fn timestamp(self, timestamp: Timestamp) -> (b: MetricRecordBuilder)
        ensures
            b@ == (MetricView { timestamp, ..self@ }),
    {
        MetricRecordBuilder {
            run_id: self.run_id,
            key: self.key,
            step: self.step,
            value_bits: self.value_bits,
            timestamp,
        }
    }

    /// Builds the metric.
    pub fn build(self) -> (r: MetricRecord)
        ensures
            r@ == self@,
    {
        MetricRecord {
            run_id: self.run_id,
            key: self.key,
            step: self.step,
            value_bits: self.value_bits,
            timestamp: self.timestamp,
        }
    }
}

} // verus!
