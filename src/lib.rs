//! Job submission for a distributed dataflow engine: the job descriptor and
//! its wire form, server selection over a sparse connection table, the
//! dispatch decisions of a submission, the fan-in of response streams, and
//! the resolution of a job's plan against a registry of named resources.

pub mod client;
pub mod job;
pub mod merge;
pub mod resolver;
