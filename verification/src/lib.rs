//! The verified core of an audio-reactive radial bar display.
//!
//! A capture feed pushes samples into a [`sample_buffer::SampleBuffer`]. On
//! each tick of the [`timer`], [`visualizer::begin_analysis`] hands the
//! samples out for the transform, whose result comes back as a
//! [`spectrum::Spectrum`]. The [`mapper`] reduces it to a fixed number of
//! columns, each with a height and a highlight; [`motion`] and [`color`]
//! move the ring and its colours. [`mapper_laws`] holds what is proved of
//! the mapping on every spectrum.
//!
//! Nothing here computes on floating-point values. A sample is kept as the
//! 32 bits of its value and never looked into; every magnitude, height,
//! distance, factor and frequency is a fixed-point integer that counts
//! millionths (see [`fixed`]).

pub mod color;
pub mod fixed;
pub mod mapper;
pub mod mapper_laws;
pub mod motion;
pub mod sample_buffer;
pub mod settings;
pub mod spectrum;
pub mod timer;
pub mod visualizer;
