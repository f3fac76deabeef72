//! System audio (loopback) capture with a rolling retention buffer.
//!
//! This library holds what decides and computes: the retention ring, the WAV writer, the frame
//! accounting against the wall clock, the chunking and quantising around a resampling engine, the
//! capture supervisor and the buffer's state machine. Devices, clocks, threads and the engine
//! itself stay outside; the library is told what they answered.
#![allow(unused_imports)]

pub mod buffer;
pub mod capture;
pub mod device;
pub mod epoch;
pub mod error;
pub mod permission;
pub mod resample;
pub mod ring;
pub mod supervisor;
pub mod text;
pub mod wav;

pub use buffer::{
    permission_status, BufferOptions, BufferState, BufferStatus, CaptureStep, PermissionStatus,
    SystemAudioBuffer,
};
pub use error::Error;
