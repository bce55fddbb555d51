//! A verified string-evolution search: a population of candidate strings is
//! scored by edit distance against a target and advanced by truncation
//! selection, uniform crossover and per-position mutation.

pub mod engine;
pub mod entropy;
pub mod levenshtein;
