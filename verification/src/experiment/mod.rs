//! Experiment tracking records.
//!
//! An experiment has runs; a run has metrics, a time series per key, and
//! artifacts, addressed by the hash of their content.

use vstd::prelude::*;

pub mod artifact_record;
pub mod experiment_record;
pub mod metric_record;
pub mod run_record;
pub mod store;

verus! {

/// A point in time: seconds since the Unix epoch and the nanoseconds
/// within the second.
#[derive(Debug, Clone, Copy, PartialEq, Eq, Structural)]
pub struct Timestamp {
    pub seconds: i64,
    pub nanos: u32,
}

impl Timestamp {
    /// Whether this point is not after `other`.
    pub open spec fn spec_not_after(self, other: Timestamp) -> bool {
        self.seconds < other.seconds || (self.seconds == other.seconds && self.nanos <= other.nanos)
    }

    /// Whether this point is not after `other`.
    pub fn not_after(self, other: Timestamp) -> (r: bool)
        ensures
            r == self.spec_not_after(other),
    {
        self.seconds < other.seconds || (self.seconds == other.seconds && self.nanos <= other.nanos)
    }
}

/// `chrono::Utc::now`, as its `timestamp` and `timestamp_subsec_nanos`.
/// Nothing is claimed of it: it is the time of the call.
#[verifier::external_body]
pub(crate) fn now() -> Timestamp {
    let t = chrono::Utc::now();
    Timestamp { seconds: t.timestamp(), nanos: t.timestamp_subsec_nanos() }
}

/// The position of the first of `ids` that is `id`, if there is one.
pub open spec fn spec_index_of(ids: Seq<Seq<char>>, id: Seq<char>) -> Option<int>
    decreases ids.len(),
{
    if ids.len() == 0 {
        None
    } else {
        match spec_index_of(ids.drop_last(), id) {
            Some(p) => Some(p),
            None => if ids.last() == id {
                Some(ids.len() - 1)
            } else {
                None
            },
        }
    }
}

/// Where an id is found, it stands, and nowhere before; where it is not
/// found, it stands nowhere.
pub proof fn lemma_index_of(ids: Seq<Seq<char>>, id: Seq<char>)
    ensures
        match spec_index_of(ids, id) {
            Some(p) => 0 <= p < ids.len() && ids[p] == id && forall|i: int|
                0 <= i < p ==> #[trigger] ids[i] != id,
            None => forall|i: int| 0 <= i < ids.len() ==> #[trigger] ids[i] != id,
        },
    decreases ids.len(),
{
    if ids.len() > 0 {
        let front = ids.drop_last();
        lemma_index_of(front, id);
        match spec_index_of(front, id) {
            Some(p) => {
                assert(front[p] == ids[p]);
                assert forall|i: int| 0 <= i < p implies #[trigger] ids[i] != id by {
                    assert(front[i] == ids[i]);
                }
            },
            None => {
                assert forall|i: int| 0 <= i < ids.len() - 1 implies #[trigger] ids[i] != id by {
                    assert(front[i] == ids[i]);
                }
            },
        }
    }
}

} // verus!
