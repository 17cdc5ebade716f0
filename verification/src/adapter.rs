//! Configuration and error vocabulary for opening an embedded datastore
//! adapter. The adapter itself drives a foreign storage engine and lives
//! outside this crate; these types carry its settings and failure kinds
//! as plain values.
use vstd::prelude::*;

verus! {

/// The ways bringing up an adapter can fail: the async runtime could not
/// be built, or the connection to the backing store could not be opened.
#[derive(Debug)]
pub enum AdapterError {
    RuntimeInitFailedErr,
    ConnectionInitFailedErr,
}

/// Settings for a datastore adapter. Timeouts are whole seconds; `None`
/// leaves the corresponding limit unset.
pub struct AdapterConfig {
    pub strict: bool,
    pub query_timeout: Option<u64>,
    pub transaction_timeout: Option<u64>,
}

impl AdapterConfig {
    /// Whether this configuration bounds the running time of queries.
    pub fn limits_queries(&self) -> (r: bool)
        ensures
            r == self.query_timeout is Some,
    {
        self.query_timeout.is_some()
    }
}

} // verus!
