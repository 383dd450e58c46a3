pub mod microarchitecture;
pub mod sequencer;
