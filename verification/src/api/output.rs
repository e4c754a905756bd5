//! Configuration of the output sinks.
use vstd::prelude::*;

verus! {

/// Configuration of the file writer output.
#[derive(Clone, Debug, Default)]
pub struct FileConfig {
    pub _file_path: String,
}

/// Configuration of a Kafka producer output.
#[derive(Clone, Debug)]
pub struct KafkaConfig {
    pub bootstrap_servers: String,
    pub topic_prefix: String,
}

} // verus!
