//! Codecs: the ways in which the values of a cycle are packed for a telemeter.

pub mod naive_codec;
