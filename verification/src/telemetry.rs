//! What leaves the data logger: the values of a cycle, as telemeters send them.

pub mod codecs;
pub mod telemeters;
