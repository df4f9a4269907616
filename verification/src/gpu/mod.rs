//! The GPU path: what is sent to the device and how its answer is read.
//!
//! The device itself is outside this library. A kernel is prepared here as
//! a [`kernels::Dispatch`]: the shader, the input, the initial value of the
//! output and the number of workgroups. The caller submits it and hands the
//! bytes that the device wrote to [`kernels::read_result`].

pub mod jit;
pub mod kernels;
pub mod multigpu;
